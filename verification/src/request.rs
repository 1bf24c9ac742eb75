//! The boundary between this crate and the machine it runs on.
//!
//! The crate never performs I/O.  Each operation hands out a [`Request`];
//! the caller performs it and hands back the [`Reply`], until the operation
//! is [`Progress::Done`].
//!
//! | request | reply |
//! |---|---|
//! | `Exists` | `Found` |
//! | `CreateDir`, `RemoveDir`, `Write` | `Done` or `Failed` |
//! | `Read` | `Text` or `Failed` |
//! | `ReadLines` | `Lines` or `Failed` |
//! | `IsSymlink` | `Found` or `Failed` |
//! | `Run` | `Exited` or `Failed` |
//! | `Sleep` | `Done` |
//! | `Identify` | `Identity` |

use crate::error::{Error, ErrorView};
use crate::text::{trim, trimmed};
use vstd::pervasive::unreached;
use vstd::prelude::*;

verus! {

/// One thing for the caller to do on the crate's behalf.
#[derive(Debug)]
pub enum Request {
    /// Report whether anything exists at the path.
    Exists(String),
    /// Create the directory, and none above it.
    CreateDir(String),
    /// Remove the directory.
    RemoveDir(String),
    /// Replace the content of the file with `data`.
    Write { path: String, data: String },
    /// Read the whole file as text.
    Read(String),
    /// Read the file as text, line by line, up to the first line that cannot
    /// be read.
    ReadLines(String),
    /// Report whether the path itself is a symbolic link, without following
    /// it.
    IsSymlink(String),
    /// Run the program with the one argument and wait for it to exit.
    Run { program: String, arg: String },
    /// Wait for this many milliseconds.
    Sleep(u64),
    /// Report the file name that this process was started as, the id of the
    /// process, and how many names the process has asked for before.
    Identify,
}

/// A [`Request`] with its texts as sequences.
pub enum RequestView {
    Exists(Seq<char>),
    CreateDir(Seq<char>),
    RemoveDir(Seq<char>),
    Write { path: Seq<char>, data: Seq<char> },
    Read(Seq<char>),
    ReadLines(Seq<char>),
    IsSymlink(Seq<char>),
    Run { program: Seq<char>, arg: Seq<char> },
    Sleep(u64),
    Identify,
}

impl View for Request {
    type V = RequestView;

    open spec fn view(&self) -> RequestView {
        match self {
            Request::Exists(path) => RequestView::Exists(path@),
            Request::CreateDir(path) => RequestView::CreateDir(path@),
            Request::RemoveDir(path) => RequestView::RemoveDir(path@),
            Request::Write { path, data } => RequestView::Write { path: path@, data: data@ },
            Request::Read(path) => RequestView::Read(path@),
            Request::ReadLines(path) => RequestView::ReadLines(path@),
            Request::IsSymlink(path) => RequestView::IsSymlink(path@),
            Request::Run { program, arg } => RequestView::Run { program: program@, arg: arg@ },
            Request::Sleep(millis) => RequestView::Sleep(*millis),
            Request::Identify => RequestView::Identify,
        }
    }
}

impl RequestView {
    /// Whether performing this request can change what is on the
    /// filesystem.
    pub open spec fn changes(self) -> bool {
        self is CreateDir || self is RemoveDir || self is Write
    }
}

impl Clone for Request {
    fn clone(&self) -> (copy: Self)
        ensures
            copy@ == self@,
    {
        match self {
            Request::Exists(path) => Request::Exists(path.clone()),
            Request::CreateDir(path) => Request::CreateDir(path.clone()),
            Request::RemoveDir(path) => Request::RemoveDir(path.clone()),
            Request::Write { path, data } => Request::Write {
                path: path.clone(),
                data: data.clone(),
            },
            Request::Read(path) => Request::Read(path.clone()),
            Request::ReadLines(path) => Request::ReadLines(path.clone()),
            Request::IsSymlink(path) => Request::IsSymlink(path.clone()),
            Request::Run { program, arg } => Request::Run {
                program: program.clone(),
                arg: arg.clone(),
            },
            Request::Sleep(millis) => Request::Sleep(*millis),
            Request::Identify => Request::Identify,
        }
    }
}

/// The views of `requests`, in order.
pub open spec fn request_views(requests: Seq<Request>) -> Seq<RequestView> {
    Seq::new(requests.len(), |i: int| requests[i]@)
}

/// What came of a [`Request`].
#[derive(Debug)]
pub enum Reply {
    /// The request was carried out and has nothing to report.
    Done,
    /// The request could not be carried out.
    Failed(std::io::Error),
    /// The answer to `Exists` or `IsSymlink`.
    Found(bool),
    /// The content that `Read` found.
    Text(String),
    /// The lines that `ReadLines` found, without their line ends.
    Lines(Vec<String>),
    /// The program that `Run` started has exited: whether with success, and
    /// what it wrote to its standard error.
    Exited { success: bool, stderr: Vec<u8> },
    /// The answer to `Identify`.  `file_name` is `None` where the process
    /// knows no such name or the name is not UTF-8.
    Identity { file_name: Option<String>, pid: u32, count: u32 },
}

/// A [`Reply`] with its texts as sequences.
pub enum ReplyView {
    Done,
    Failed(std::io::Error),
    Found(bool),
    Text(Seq<char>),
    Lines(Seq<Seq<char>>),
    Exited { success: bool, stderr: Seq<u8> },
    Identity { file_name: Option<Seq<char>>, pid: u32, count: u32 },
}

/// The views of `lines`, in order.
pub open spec fn line_views(lines: Seq<String>) -> Seq<Seq<char>> {
    Seq::new(lines.len(), |i: int| lines[i]@)
}

impl View for Reply {
    type V = ReplyView;

    open spec fn view(&self) -> ReplyView {
        match self {
            Reply::Done => ReplyView::Done,
            Reply::Failed(e) => ReplyView::Failed(*e),
            Reply::Found(found) => ReplyView::Found(*found),
            Reply::Text(text) => ReplyView::Text(text@),
            Reply::Lines(lines) => ReplyView::Lines(line_views(lines@)),
            Reply::Exited { success, stderr } => ReplyView::Exited {
                success: *success,
                stderr: stderr@,
            },
            Reply::Identity { file_name, pid, count } => ReplyView::Identity {
                file_name: match file_name {
                    Some(name) => Some(name@),
                    None => None,
                },
                pid: *pid,
                count: *count,
            },
        }
    }
}

impl ReplyView {
    /// Whether this reply says that something was found.  Any other reply to
    /// `Exists` counts as absence.
    pub open spec fn found(self) -> bool {
        self == ReplyView::Found(true)
    }

    /// Whether this reply can answer a request to create, remove or write.
    pub open spec fn is_completion(self) -> bool {
        self is Done || self is Failed
    }

    /// Whether this reply can answer a request to read.
    pub open spec fn is_content(self) -> bool {
        self is Text || self is Failed
    }

    /// Whether this reply can answer a request to tell a symbolic link.
    pub open spec fn is_finding(self) -> bool {
        self is Found || self is Failed
    }

    /// What came of a request to create, remove or write.
    pub open spec fn completion(self) -> Result<(), ErrorView> {
        match self {
            ReplyView::Done => Ok(()),
            ReplyView::Failed(e) => Err(ErrorView::IoError(e)),
            _ => arbitrary(),
        }
    }

    /// The value of the attribute that was read: its content without the
    /// white space around it.
    pub open spec fn value(self) -> Result<Seq<char>, ErrorView> {
        match self {
            ReplyView::Text(text) => Ok(trimmed(text)),
            ReplyView::Failed(e) => Err(ErrorView::IoError(e)),
            _ => arbitrary(),
        }
    }
}

/// A text or an error, each seen through its view.
pub open spec fn text_outcome(r: Result<String, Error>) -> Result<Seq<char>, ErrorView> {
    match r {
        Ok(text) => Ok(text@),
        Err(e) => Err(e@),
    }
}

impl Reply {
    /// Whether this reply can answer a request to create, remove or write.
    pub fn is_completion(&self) -> (fits: bool)
        ensures
            fits == self@.is_completion(),
    {
        matches!(self, Reply::Done | Reply::Failed(_))
    }

    /// Whether this reply can answer a request to read.
    pub fn is_content(&self) -> (fits: bool)
        ensures
            fits == self@.is_content(),
    {
        matches!(self, Reply::Text(_) | Reply::Failed(_))
    }

    /// What came of a request to create, remove or write.
    pub fn completion(self) -> (r: Result<(), Error>)
        requires
            self@.is_completion(),
        ensures
            crate::error::outcome(r) == self@.completion(),
    {
        match self {
            Reply::Done => Ok(()),
            Reply::Failed(e) => Err(Error::IoError(e)),
            _ => unreached(),
        }
    }

    /// The value of the attribute that was read: its content without the
    /// white space around it.
    pub fn value(self) -> (r: Result<String, Error>)
        requires
            self@.is_content(),
        ensures
            text_outcome(r) == self@.value(),
    {
        match self {
            Reply::Text(text) => Ok(trim(text.as_str()).to_owned()),
            Reply::Failed(e) => Err(Error::IoError(e)),
            _ => unreached(),
        }
    }
}

/// Where the model of an operation stands after a reply: in its next state,
/// or over with a result.
pub enum Move<S, T> {
    Next(S),
    Done(T),
}

/// Where an operation stands after a reply.
pub enum Progress<M, T> {
    /// The operation goes on: perform the request and hand the reply to the
    /// machine beside it.
    Next(M, Request),
    /// The operation is over, with this result.
    Done(T),
}

} // verus!
