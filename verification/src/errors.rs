use vstd::prelude::*;

verus! {

/// The unified error taxonomy of this layer.  Every fallible operation
/// returns one of these; none of them aborts the process.
///
/// `FileError` is reserved for the embedding program's snapshot write: the
/// library itself performs no file I/O, it only hands out serialized
/// snapshots.  `SerializeError` is the serializer's failure mode in the
/// taxonomy; the engine instantiation this crate uses serializes without
/// fail, so the verified operations are proved never to return it.
#[derive(Clone, Copy, Debug, PartialEq, Eq, Structural)]
pub enum FSError {
    KeyAllreadyPresent,
    KeyNotFound,
    NodeNotLink,
    NodeNotData,
    PathNotPresent,
    FileError,
    SerializeError,
}

impl FSError {
    /// A short human-readable description of the error.
    pub fn to_string(self) -> (r: String)
        ensures
            r@ == match self {
                FSError::KeyAllreadyPresent => "KeyAllreadyPresent"@,
                FSError::KeyNotFound => "KeyNotFound"@,
                FSError::NodeNotLink => "NodeNotLink"@,
                FSError::NodeNotData => "NodeNotData"@,
                FSError::PathNotPresent => "PathNotPresent"@,
                FSError::FileError => "File Error"@,
                FSError::SerializeError => "Error when Serializing to String"@,
            },
    {
        match self {
            FSError::KeyAllreadyPresent => "KeyAllreadyPresent".to_owned(),
            FSError::KeyNotFound => "KeyNotFound".to_owned(),
            FSError::NodeNotLink => "NodeNotLink".to_owned(),
            FSError::NodeNotData => "NodeNotData".to_owned(),
            FSError::PathNotPresent => "PathNotPresent".to_owned(),
            FSError::FileError => "File Error".to_owned(),
            FSError::SerializeError => "Error when Serializing to String".to_owned(),
        }
    }
}

} // verus!
