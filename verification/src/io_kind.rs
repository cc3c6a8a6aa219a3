//! The kinds of input and output failures that decisions look at.
use vstd::prelude::*;

verus! {

/// What went wrong with a file, a stream or a process, as the operating system reports it.
#[derive(Debug, Clone, Copy, PartialEq, Eq, Structural)]
pub enum IoErrorKind {
    NotFound,
    PermissionDenied,
    AlreadyExists,
    NotADirectory,
    IsADirectory,
    DirectoryNotEmpty,
    ReadOnlyFilesystem,
    StorageFull,
    CrossesDevices,
    InvalidInput,
    InvalidData,
    UnexpectedEof,
    WriteZero,
    BrokenPipe,
    ConnectionReset,
    ConnectionAborted,
    ConnectionRefused,
    NotConnected,
    TimedOut,
    WouldBlock,
    Interrupted,
    Unsupported,
    OutOfMemory,
    HostUnreachable,
    NetworkUnreachable,
    NetworkDown,
    AddrInUse,
    AddrNotAvailable,
    StaleNetworkFileHandle,
    NotSeekable,
    QuotaExceeded,
    FileTooLarge,
    ResourceBusy,
    ExecutableFileBusy,
    Deadlock,
    TooManyLinks,
    InvalidFilename,
    ArgumentListTooLong,
    FilesystemLoop,
    InProgress,
    Uncategorized,
    Other,
}

impl IoErrorKind {
    pub open spec fn label(self) -> Seq<char> {
        match self {
            IoErrorKind::NotFound => "NotFound"@,
            IoErrorKind::PermissionDenied => "PermissionDenied"@,
            IoErrorKind::AlreadyExists => "AlreadyExists"@,
            IoErrorKind::NotADirectory => "NotADirectory"@,
            IoErrorKind::IsADirectory => "IsADirectory"@,
            IoErrorKind::DirectoryNotEmpty => "DirectoryNotEmpty"@,
            IoErrorKind::ReadOnlyFilesystem => "ReadOnlyFilesystem"@,
            IoErrorKind::StorageFull => "StorageFull"@,
            IoErrorKind::CrossesDevices => "CrossesDevices"@,
            IoErrorKind::InvalidInput => "InvalidInput"@,
            IoErrorKind::InvalidData => "InvalidData"@,
            IoErrorKind::UnexpectedEof => "UnexpectedEof"@,
            IoErrorKind::WriteZero => "WriteZero"@,
            IoErrorKind::BrokenPipe => "BrokenPipe"@,
            IoErrorKind::ConnectionReset => "ConnectionReset"@,
            IoErrorKind::ConnectionAborted => "ConnectionAborted"@,
            IoErrorKind::ConnectionRefused => "ConnectionRefused"@,
            IoErrorKind::NotConnected => "NotConnected"@,
            IoErrorKind::TimedOut => "TimedOut"@,
            IoErrorKind::WouldBlock => "WouldBlock"@,
            IoErrorKind::Interrupted => "Interrupted"@,
            IoErrorKind::Unsupported => "Unsupported"@,
            IoErrorKind::OutOfMemory => "OutOfMemory"@,
            IoErrorKind::HostUnreachable => "HostUnreachable"@,
            IoErrorKind::NetworkUnreachable => "NetworkUnreachable"@,
            IoErrorKind::NetworkDown => "NetworkDown"@,
            IoErrorKind::AddrInUse => "AddrInUse"@,
            IoErrorKind::AddrNotAvailable => "AddrNotAvailable"@,
            IoErrorKind::StaleNetworkFileHandle => "StaleNetworkFileHandle"@,
            IoErrorKind::NotSeekable => "NotSeekable"@,
            IoErrorKind::QuotaExceeded => "QuotaExceeded"@,
            IoErrorKind::FileTooLarge => "FileTooLarge"@,
            IoErrorKind::ResourceBusy => "ResourceBusy"@,
            IoErrorKind::ExecutableFileBusy => "ExecutableFileBusy"@,
            IoErrorKind::Deadlock => "Deadlock"@,
            IoErrorKind::TooManyLinks => "TooManyLinks"@,
            IoErrorKind::InvalidFilename => "InvalidFilename"@,
            IoErrorKind::ArgumentListTooLong => "ArgumentListTooLong"@,
            IoErrorKind::FilesystemLoop => "FilesystemLoop"@,
            IoErrorKind::InProgress => "InProgress"@,
            IoErrorKind::Uncategorized => "Uncategorized"@,
            IoErrorKind::Other => "Other"@,
        }
    }

    pub fn name(self) -> (name: &'static str)
        ensures
            name@ == self.label(),
    {
        match self {
            Self::NotFound => "NotFound",
            Self::PermissionDenied => "PermissionDenied",
            Self::AlreadyExists => "AlreadyExists",
            Self::NotADirectory => "NotADirectory",
            Self::IsADirectory => "IsADirectory",
            Self::DirectoryNotEmpty => "DirectoryNotEmpty",
            Self::ReadOnlyFilesystem => "ReadOnlyFilesystem",
            Self::StorageFull => "StorageFull",
            Self::CrossesDevices => "CrossesDevices",
            Self::InvalidInput => "InvalidInput",
            Self::InvalidData => "InvalidData",
            Self::UnexpectedEof => "UnexpectedEof",
            Self::WriteZero => "WriteZero",
            Self::BrokenPipe => "BrokenPipe",
            Self::ConnectionReset => "ConnectionReset",
            Self::ConnectionAborted => "ConnectionAborted",
            Self::ConnectionRefused => "ConnectionRefused",
            Self::NotConnected => "NotConnected",
            Self::TimedOut => "TimedOut",
            Self::WouldBlock => "WouldBlock",
            Self::Interrupted => "Interrupted",
            Self::Unsupported => "Unsupported",
            Self::OutOfMemory => "OutOfMemory",
            Self::HostUnreachable => "HostUnreachable",
            Self::NetworkUnreachable => "NetworkUnreachable",
            Self::NetworkDown => "NetworkDown",
            Self::AddrInUse => "AddrInUse",
            Self::AddrNotAvailable => "AddrNotAvailable",
            Self::StaleNetworkFileHandle => "StaleNetworkFileHandle",
            Self::NotSeekable => "NotSeekable",
            Self::QuotaExceeded => "QuotaExceeded",
            Self::FileTooLarge => "FileTooLarge",
            Self::ResourceBusy => "ResourceBusy",
            Self::ExecutableFileBusy => "ExecutableFileBusy",
            Self::Deadlock => "Deadlock",
            Self::TooManyLinks => "TooManyLinks",
            Self::InvalidFilename => "InvalidFilename",
            Self::ArgumentListTooLong => "ArgumentListTooLong",
            Self::FilesystemLoop => "FilesystemLoop",
            Self::InProgress => "InProgress",
            Self::Uncategorized => "Uncategorized",
            Self::Other => "Other",
        }
    }
}

} // verus!
