use vstd::prelude::*;

verus! {

/// What an `Error` says, as plain mathematical values.
pub enum Fault {
    FileTooLarge(Seq<char>),
    NotAFile(Seq<char>),
    IsSystemFile(Seq<char>),
    IsReadOnly(Seq<char>),
    MalformedInput(Seq<char>),
    OutputBufferExhausted(Seq<char>),
    UnsupportedEncoding(Seq<char>),
    UnsupportedMimeType(Seq<char>),
    FfiOsString(Seq<char>),
    WalkDir(Seq<char>),
    Io(Seq<char>),
}

/// The kinds of failure, each with the path or name it concerns.
#[derive(Debug)]
pub enum ErrorKind {
    FileTooLarge { path: String },
    NotAFile { path: String },
    IsSystemFile { path: String },
    IsReadOnly { path: String },
    MalformedInput { path: String },
    OutputBufferExhausted { path: String },
    UnsupportedEncoding { name: String },
    UnsupportedMimeType { mime_type: String },
    /// A path that could not be read as text; `original` holds it with the
    /// unreadable parts replaced.
    FfiOsString { original: String },
    /// A failure of the directory walk, with its message.
    WalkDir { message: String },
    /// A failure to read, write, copy or remove a file, with its message.
    Io { message: String },
}

impl View for ErrorKind {
    type V = Fault;

    open spec fn view(&self) -> Fault {
        match self {
            ErrorKind::FileTooLarge { path } => Fault::FileTooLarge(path@),
            ErrorKind::NotAFile { path } => Fault::NotAFile(path@),
            ErrorKind::IsSystemFile { path } => Fault::IsSystemFile(path@),
            ErrorKind::IsReadOnly { path } => Fault::IsReadOnly(path@),
            ErrorKind::MalformedInput { path } => Fault::MalformedInput(path@),
            ErrorKind::OutputBufferExhausted { path } => Fault::OutputBufferExhausted(path@),
            ErrorKind::UnsupportedEncoding { name } => Fault::UnsupportedEncoding(name@),
            ErrorKind::UnsupportedMimeType { mime_type } => Fault::UnsupportedMimeType(mime_type@),
            ErrorKind::FfiOsString { original } => Fault::FfiOsString(original@),
            ErrorKind::WalkDir { message } => Fault::WalkDir(message@),
            ErrorKind::Io { message } => Fault::Io(message@),
        }
    }
}

/// An error of the library: a kind together with what it concerns.
#[derive(Debug)]
pub struct Error {
    pub inner: ErrorKind,
}

impl View for Error {
    type V = Fault;

    open spec fn view(&self) -> Fault {
        self.inner@
    }
}

impl Error {
    pub fn kind_ref(&self) -> (r: &ErrorKind)
        ensures
            r@ == self@,
    {
        &self.inner
    }

    pub fn from_kind(kind: ErrorKind) -> (r: Error)
        ensures
            r@ == kind@,
    {
        Error { inner: kind }
    }

    pub fn file_too_large(path: &str) -> (r: Error)
        ensures
            r@ == Fault::FileTooLarge(path@),
    {
        Error { inner: ErrorKind::FileTooLarge { path: path.to_owned() } }
    }

    pub fn not_a_file(path: &str) -> (r: Error)
        ensures
            r@ == Fault::NotAFile(path@),
    {
        Error { inner: ErrorKind::NotAFile { path: path.to_owned() } }
    }

    pub fn is_system_file(path: &str) -> (r: Error)
        ensures
            r@ == Fault::IsSystemFile(path@),
    {
        Error { inner: ErrorKind::IsSystemFile { path: path.to_owned() } }
    }

    pub fn is_read_only(path: &str) -> (r: Error)
        ensures
            r@ == Fault::IsReadOnly(path@),
    {
        Error { inner: ErrorKind::IsReadOnly { path: path.to_owned() } }
    }

    pub fn malformed_input(path: &str) -> (r: Error)
        ensures
            r@ == Fault::MalformedInput(path@),
    {
        Error { inner: ErrorKind::MalformedInput { path: path.to_owned() } }
    }

    pub fn output_buffer_exhausted(path: &str) -> (r: Error)
        ensures
            r@ == Fault::OutputBufferExhausted(path@),
    {
        Error { inner: ErrorKind::OutputBufferExhausted { path: path.to_owned() } }
    }

    pub fn unsupported_encoding(name: &str) -> (r: Error)
        ensures
            r@ == Fault::UnsupportedEncoding(name@),
    {
        Error { inner: ErrorKind::UnsupportedEncoding { name: name.to_owned() } }
    }

    pub fn unsupported_mime_type(mime_type: &str) -> (r: Error)
        ensures
            r@ == Fault::UnsupportedMimeType(mime_type@),
    {
        Error { inner: ErrorKind::UnsupportedMimeType { mime_type: mime_type.to_owned() } }
    }
}

} // verus!
