//! The errors the controller reports, and how they read.
use vstd::prelude::*;
use vstd::string::*;
use crate::text::{decimal, owned, push_decimal};

verus! {

/// An error met while reconciling.
#[derive(Debug)]
pub enum AppError {
    /// A request could not be sent or its reply not received; holds the transport's message.
    Http(String),
    /// A body was not the JSON expected; holds the parser's message.
    Json(String),
    /// OpenBao answered with a non-success status.
    OpenBaoApi { status: u16, message: String },
    /// Garage answered with a non-success status.
    GarageApi { status: u16, message: String },
    /// A required setting is empty; holds its names.
    MissingConfig(String),
    /// A record or resource could not be handled.
    Resource(String),
}

/// The view of an error.
pub enum AppErrorV {
    Http(Seq<char>),
    Json(Seq<char>),
    OpenBaoApi { status: u16, message: Seq<char> },
    GarageApi { status: u16, message: Seq<char> },
    MissingConfig(Seq<char>),
    Resource(Seq<char>),
}

impl View for AppError {
    type V = AppErrorV;

    open spec fn view(&self) -> AppErrorV {
        match self {
            AppError::Http(m) => AppErrorV::Http(m@),
            AppError::Json(m) => AppErrorV::Json(m@),
            AppError::OpenBaoApi { status, message } => AppErrorV::OpenBaoApi { status: *status, message: message@ },
            AppError::GarageApi { status, message } => AppErrorV::GarageApi { status: *status, message: message@ },
            AppError::MissingConfig(m) => AppErrorV::MissingConfig(m@),
            AppError::Resource(m) => AppErrorV::Resource(m@),
        }
    }
}

/// How an error reads.
pub open spec fn error_text(e: AppErrorV) -> Seq<char> {
    match e {
        AppErrorV::Http(m) => "http request failed: "@ + m,
        AppErrorV::Json(m) => "json error: "@ + m,
        AppErrorV::OpenBaoApi { status, message } => "openbao api error ("@ + decimal(status as nat) + "): "@ + message,
        AppErrorV::GarageApi { status, message } => "garage api error ("@ + decimal(status as nat) + "): "@ + message,
        AppErrorV::MissingConfig(m) => "missing required config: "@ + m,
        AppErrorV::Resource(m) => "resource error: "@ + m,
    }
}

impl AppError {
    /// The error's text.
    pub fn to_string(&self) -> (s: String)
        ensures
            s@ == error_text(self@),
    {
        let mut s = String::new();
        match self {
            AppError::Http(m) => {
                s.append("http request failed: ");
                s.append(m.as_str());
            },
            AppError::Json(m) => {
                s.append("json error: ");
                s.append(m.as_str());
            },
            AppError::OpenBaoApi { status, message } => {
                s.append("openbao api error (");
                push_decimal(&mut s, *status as u64);
                s.append("): ");
                s.append(message.as_str());
            },
            AppError::GarageApi { status, message } => {
                s.append("garage api error (");
                push_decimal(&mut s, *status as u64);
                s.append("): ");
                s.append(message.as_str());
            },
            AppError::MissingConfig(m) => {
                s.append("missing required config: ");
                s.append(m.as_str());
            },
            AppError::Resource(m) => {
                s.append("resource error: ");
                s.append(m.as_str());
            },
        }
        assert(s@ =~= error_text(self@));
        s
    }

    /// A copy of the error.
    pub fn duplicate(&self) -> (e: AppError)
        ensures
            e@ == self@,
    {
        match self {
            AppError::Http(m) => AppError::Http(m.clone()),
            AppError::Json(m) => AppError::Json(m.clone()),
            AppError::OpenBaoApi { status, message } => AppError::OpenBaoApi { status: *status, message: message.clone() },
            AppError::GarageApi { status, message } => AppError::GarageApi { status: *status, message: message.clone() },
            AppError::MissingConfig(m) => AppError::MissingConfig(m.clone()),
            AppError::Resource(m) => AppError::Resource(m.clone()),
        }
    }
}

/// A resource error holding `m`.
pub fn resource(m: String) -> (e: AppError)
    ensures
        e@ == AppErrorV::Resource(m@),
{
    AppError::Resource(m)
}

/// A resource error reading `<before><name><after>`.
pub fn resource_quoting(before: &str, name: &str, after: &str) -> (e: AppError)
    ensures
        e@ == AppErrorV::Resource(before@ + name@ + after@),
{
    let mut m = owned(before);
    m.append(name);
    m.append(after);
    assert(m@ =~= before@ + name@ + after@);
    AppError::Resource(m)
}

/// A resource error reading `<before><name><after><cause's text>`.
pub fn resource_with_cause(before: &str, name: &str, after: &str, cause: &AppError) -> (e: AppError)
    ensures
        e@ == AppErrorV::Resource(before@ + name@ + after@ + error_text(cause@)),
{
    let mut m = owned(before);
    m.append(name);
    m.append(after);
    let c = cause.to_string();
    m.append(c.as_str());
    assert(m@ =~= before@ + name@ + after@ + error_text(cause@));
    AppError::Resource(m)
}

} // verus!
