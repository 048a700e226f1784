//! The dispatcher: from an invocation URL to the command that shows the log
//! of a revision, through a series of gates that each reject with an error of
//! their own.

use vstd::prelude::*;
use vstd::string::*;
use crate::text::{
    decimal_text, format_u32, is_canonical_numeral, is_numeral,
    lemma_canonical_numeral_is_decimal_text, numeral_value, parse_u32, parse_u32_spec, str_equal,
};
use crate::text_map::TextMap;
use crate::web_url::{
    lemma_other_names_unchanged, lemma_query_map_names, parse_url, query_as_map, query_map,
    url_query_pairs, url_scheme, url_well_formed,
};

verus! {

/// The one URL scheme that this program handles.
pub const HANDLED_PROTOCOL: &'static str = "viewsvn";

/// The log viewer, found through the system's executable search path.
pub const VIEWER_PROGRAM: &'static str = "TortoiseProc.exe";

/// The query parameter that carries the address of the repository.
pub const SERVER_URL_KEY: &'static str = "server_url";

/// The query parameter that carries the revision number.
pub const REVISION_KEY: &'static str = "revision";

/// A query parameter that an invocation URL must carry.
#[derive(Clone, Copy, Debug, PartialEq, Eq, Structural)]
pub enum RequiredParam {
    ServerUrl,
    Revision,
}

impl RequiredParam {
    /// The name of the parameter in a query string.
    pub open spec fn key(self) -> Seq<char> {
        match self {
            RequiredParam::ServerUrl => SERVER_URL_KEY@,
            RequiredParam::Revision => REVISION_KEY@,
        }
    }

    /// The name of the parameter in a query string.
    pub fn name(&self) -> (name: &'static str)
        ensures
            name@ == self.key(),
    {
        match self {
            RequiredParam::ServerUrl => SERVER_URL_KEY,
            RequiredParam::Revision => REVISION_KEY,
        }
    }
}

/// Why an invocation URL was turned down.
#[derive(Debug, PartialEq, Eq)]
pub enum DispatchError {
    /// The text is no URL.
    InvalidUrl,
    /// The URL has another scheme than the handled one; the scheme it has.
    UnsupportedScheme(String),
    /// The query string lacks a required parameter.
    MissingParam(RequiredParam),
    /// The value of `server_url` is no URL.
    InvalidServerUrl,
    /// The value of `revision` is no unsigned 32-bit decimal number.
    InvalidRevision,
    /// The viewer could not be started; the reason that the system gave.
    LaunchFailed(String),
}

/// The mathematical counterpart of [`DispatchError`].
pub enum DispatchErrorView {
    InvalidUrl,
    UnsupportedScheme(Seq<char>),
    MissingParam(RequiredParam),
    InvalidServerUrl,
    InvalidRevision,
    LaunchFailed(Seq<char>),
}

impl View for DispatchError {
    type V = DispatchErrorView;

    open spec fn view(&self) -> DispatchErrorView {
        match self {
            DispatchError::InvalidUrl => DispatchErrorView::InvalidUrl,
            DispatchError::UnsupportedScheme(scheme) => DispatchErrorView::UnsupportedScheme(
                scheme@,
            ),
            DispatchError::MissingParam(param) => DispatchErrorView::MissingParam(*param),
            DispatchError::InvalidServerUrl => DispatchErrorView::InvalidServerUrl,
            DispatchError::InvalidRevision => DispatchErrorView::InvalidRevision,
            DispatchError::LaunchFailed(reason) => DispatchErrorView::LaunchFailed(reason@),
        }
    }
}

/// The diagnostic text of an error: what went wrong, with the scheme, the
/// name of the parameter or the system's reason that it is about.
pub open spec fn message_text(error: DispatchErrorView) -> Seq<char> {
    match error {
        DispatchErrorView::InvalidUrl => "Error parsing URL"@,
        DispatchErrorView::UnsupportedScheme(scheme) => "Unsupported protocol: "@ + scheme,
        DispatchErrorView::MissingParam(param) => "No "@ + param.key() + " specified in url."@,
        DispatchErrorView::InvalidServerUrl => "Invalid server_url"@,
        DispatchErrorView::InvalidRevision => "Url revision was not a number"@,
        DispatchErrorView::LaunchFailed(reason) => "Failed to execute command: "@ + reason,
    }
}

impl DispatchError {
    /// The text to report this error with.
    pub fn message(&self) -> (message: String)
        ensures
            message@ == message_text(self@),
    {
        match self {
            DispatchError::InvalidUrl => String::from_str("Error parsing URL"),
            DispatchError::UnsupportedScheme(scheme) => {
                let mut message = String::from_str("Unsupported protocol: ");
                message.append(scheme.as_str());
                message
            },
            DispatchError::MissingParam(param) => {
                let mut message = String::from_str("No ");
                message.append(param.name());
                message.append(" specified in url.");
                message
            },
            DispatchError::InvalidServerUrl => String::from_str("Invalid server_url"),
            DispatchError::InvalidRevision => String::from_str("Url revision was not a number"),
            DispatchError::LaunchFailed(reason) => {
                let mut message = String::from_str("Failed to execute command: ");
                message.append(reason.as_str());
                message
            },
        }
    }
}

/// A validated request to show the log of the repository at `server_url`,
/// starting at `revision`.
#[derive(Debug, PartialEq, Eq)]
pub struct LaunchCommand {
    pub revision: u32,
    pub server_url: String,
}

/// The mathematical counterpart of [`LaunchCommand`].
pub struct LaunchCommandView {
    pub revision: u32,
    pub server_url: Seq<char>,
}

impl View for LaunchCommand {
    type V = LaunchCommandView;

    open spec fn view(&self) -> LaunchCommandView {
        LaunchCommandView { revision: self.revision, server_url: self.server_url@ }
    }
}

/// The arguments handed to the viewer: the log command, the revision to start
/// at in decimal, and the repository address as it was given.
pub open spec fn launch_arguments(command: LaunchCommandView) -> Seq<Seq<char>> {
    seq![
        "/command:log"@,
        "/startrev:"@ + decimal_text(command.revision as nat),
        "/path:"@ + command.server_url,
    ]
}

impl LaunchCommand {
    /// The executable to launch.
    pub fn program(&self) -> (program: &'static str)
        ensures
            program@ == VIEWER_PROGRAM@,
    {
        VIEWER_PROGRAM
    }

    /// The argument vector to launch the viewer with.
    pub fn arguments(&self) -> (arguments: Vec<String>)
        ensures
            arguments.deep_view() == launch_arguments(self@),
    {
        let command = String::from_str("/command:log");
        let mut start = String::from_str("/startrev:");
        start.append(format_u32(self.revision).as_str());
        let mut path = String::from_str("/path:");
        path.append(self.server_url.as_str());
        let mut arguments: Vec<String> = Vec::new();
        arguments.push(command);
        arguments.push(start);
        arguments.push(path);
        arguments
    }
}

/// The outcome of a dispatch as a mathematical value.
pub open spec fn outcome_view(outcome: Result<LaunchCommand, DispatchError>) -> Result<
    LaunchCommandView,
    DispatchErrorView,
> {
    match outcome {
        Ok(command) => Ok(command@),
        Err(error) => Err(error@),
    }
}

/// What the gates behind the URL parser decide, given the scheme, the query
/// parameters and whether the value of `server_url` is itself a URL.
///
/// The gates stand in this order, and the first that fails gives the error:
/// the scheme, the presence of `server_url`, its well-formedness, the
/// presence of `revision`, and its being an unsigned 32-bit decimal number.
pub open spec fn resolution(
    scheme: Seq<char>,
    query: Map<Seq<char>, Seq<char>>,
    server_url_well_formed: bool,
) -> Result<LaunchCommandView, DispatchErrorView> {
    if scheme != HANDLED_PROTOCOL@ {
        Err(DispatchErrorView::UnsupportedScheme(scheme))
    } else if !query.dom().contains(SERVER_URL_KEY@) {
        Err(DispatchErrorView::MissingParam(RequiredParam::ServerUrl))
    } else if !server_url_well_formed {
        Err(DispatchErrorView::InvalidServerUrl)
    } else if !query.dom().contains(REVISION_KEY@) {
        Err(DispatchErrorView::MissingParam(RequiredParam::Revision))
    } else {
        match parse_u32_spec(query[REVISION_KEY@]) {
            Some(revision) => Ok(
                LaunchCommandView { revision, server_url: query[SERVER_URL_KEY@] },
            ),
            None => Err(DispatchErrorView::InvalidRevision),
        }
    }
}

/// Whether the query carries a `server_url` that the URL parser accepts.
pub open spec fn server_url_accepted(query: Map<Seq<char>, Seq<char>>) -> bool {
    query.dom().contains(SERVER_URL_KEY@) && url_well_formed(query[SERVER_URL_KEY@])
}

/// What a URL with the scheme `scheme` and the query pairs `pairs` leads to.
pub open spec fn request_outcome(scheme: Seq<char>, pairs: Seq<(Seq<char>, Seq<char>)>) -> Result<
    LaunchCommandView,
    DispatchErrorView,
> {
    let query = query_map(pairs);
    resolution(scheme, query, server_url_accepted(query))
}

/// What dispatching the text `raw` gives.
pub open spec fn dispatch_outcome(raw: Seq<char>) -> Result<LaunchCommandView, DispatchErrorView> {
    if !url_well_formed(raw) {
        Err(DispatchErrorView::InvalidUrl)
    } else {
        request_outcome(url_scheme(raw), url_query_pairs(raw))
    }
}

/// Passes a parsed URL through the gates behind the parser.
///
/// `server_url_well_formed` tells whether the value of `server_url` is itself
/// a URL; it is read only where the query has that parameter.
pub fn resolve(scheme: &str, query: &TextMap, server_url_well_formed: bool) -> (outcome: Result<
    LaunchCommand,
    DispatchError,
>)
    ensures
        outcome_view(outcome) == resolution(scheme@, query@, server_url_well_formed),
{
    if !str_equal(scheme, HANDLED_PROTOCOL) {
        return Err(DispatchError::UnsupportedScheme(String::from_str(scheme)));
    }
    let server_url = match query.get(SERVER_URL_KEY) {
        Some(value) => value,
        None => {
            return Err(DispatchError::MissingParam(RequiredParam::ServerUrl));
        },
    };
    if !server_url_well_formed {
        return Err(DispatchError::InvalidServerUrl);
    }
    let revision_text = match query.get(REVISION_KEY) {
        Some(value) => value,
        None => {
            return Err(DispatchError::MissingParam(RequiredParam::Revision));
        },
    };
    match parse_u32(revision_text.as_str()) {
        Some(revision) => Ok(LaunchCommand { revision, server_url: server_url.clone() }),
        None => Err(DispatchError::InvalidRevision),
    }
}

/// Turns an invocation URL into the command to launch, or says why not.
///
/// Nothing is launched here: the caller runs the command that comes back.
/// The value of `server_url` is looked at only behind the scheme gate.
pub fn dispatch(raw_url: &str) -> (outcome: Result<LaunchCommand, DispatchError>)
    ensures
        outcome_view(outcome) == dispatch_outcome(raw_url@),
{
    let url = match parse_url(raw_url) {
        Ok(url) => url,
        Err(_) => {
            return Err(DispatchError::InvalidUrl);
        },
    };
    let query = query_as_map(&url);
    let handled = str_equal(url.scheme.as_str(), HANDLED_PROTOCOL);
    let server_url_well_formed = handled && match query.get(SERVER_URL_KEY) {
        Some(value) => parse_url(value.as_str()).is_ok(),
        None => false,
    };
    resolve(url.scheme.as_str(), &query, server_url_well_formed)
}

/// What came of an attempt to run the viewer.
#[derive(Debug, PartialEq, Eq)]
pub enum LaunchEvent {
    /// The viewer ran and ended: its exit code, if it has one, and what it
    /// wrote to its standard output.
    Exited { status: Option<i32>, output: String },
    /// The viewer could not be started; the reason that the system gave.
    NotStarted { reason: String },
}

/// Judges a launch: a viewer that ran has been launched, however it ended,
/// and what it wrote is handed on to be recorded; only a viewer that could
/// not be started is a failure.
pub fn conclude_launch(event: LaunchEvent) -> (outcome: Result<String, DispatchError>)
    ensures
        match event {
            LaunchEvent::Exited { status, output } => outcome matches Ok(recorded) && recorded@
                == output@,
            LaunchEvent::NotStarted { reason } => outcome matches Err(error) && error@
                == DispatchErrorView::LaunchFailed(reason@),
        },
{
    match event {
        LaunchEvent::Exited { status: _, output } => Ok(output),
        LaunchEvent::NotStarted { reason } => Err(DispatchError::LaunchFailed(reason)),
    }
}

/// A well-formed URL with the handled scheme, a `server_url` that is itself
/// a URL and a `revision` that is an unsigned 32-bit decimal number is
/// dispatched, and the viewer's arguments are the log command, the revision
/// and the repository address, in this order.
pub proof fn lemma_valid_request_is_launched(raw: Seq<char>)
    requires
        url_well_formed(raw),
        url_scheme(raw) == HANDLED_PROTOCOL@,
        query_map(url_query_pairs(raw)).dom().contains(SERVER_URL_KEY@),
        url_well_formed(query_map(url_query_pairs(raw))[SERVER_URL_KEY@]),
        query_map(url_query_pairs(raw)).dom().contains(REVISION_KEY@),
        is_numeral(query_map(url_query_pairs(raw))[REVISION_KEY@]),
        numeral_value(query_map(url_query_pairs(raw))[REVISION_KEY@]) <= u32::MAX,
    ensures
        dispatch_outcome(raw) matches Ok(command) && {
            let query = query_map(url_query_pairs(raw));
            &&& command.revision == numeral_value(query[REVISION_KEY@])
            &&& command.server_url == query[SERVER_URL_KEY@]
            &&& launch_arguments(command) == seq![
                "/command:log"@,
                "/startrev:"@ + decimal_text(numeral_value(query[REVISION_KEY@])),
                "/path:"@ + query[SERVER_URL_KEY@],
            ]
            &&& is_canonical_numeral(query[REVISION_KEY@]) ==> launch_arguments(command)[1]
                == "/startrev:"@ + query[REVISION_KEY@]
        },
{
    let revision = query_map(url_query_pairs(raw))[REVISION_KEY@];
    if is_canonical_numeral(revision) {
        lemma_canonical_numeral_is_decimal_text(revision);
    }
}

/// A URL with another scheme than the handled one is turned down as
/// unsupported, whatever its query holds, and the error names its scheme.
pub proof fn lemma_foreign_scheme_is_unsupported(raw: Seq<char>)
    requires
        url_well_formed(raw),
        url_scheme(raw) != HANDLED_PROTOCOL@,
    ensures
        dispatch_outcome(raw) == Err::<LaunchCommandView, DispatchErrorView>(
            DispatchErrorView::UnsupportedScheme(url_scheme(raw)),
        ),
{
}

/// A URL of the handled scheme without `server_url` is turned down for that,
/// whatever else it holds.
pub proof fn lemma_missing_server_url(raw: Seq<char>)
    requires
        url_well_formed(raw),
        url_scheme(raw) == HANDLED_PROTOCOL@,
        !query_map(url_query_pairs(raw)).dom().contains(SERVER_URL_KEY@),
    ensures
        dispatch_outcome(raw) == Err::<LaunchCommandView, DispatchErrorView>(
            DispatchErrorView::MissingParam(RequiredParam::ServerUrl),
        ),
{
}

/// A URL of the handled scheme with a well-formed `server_url` and without
/// `revision` is turned down for the missing revision.
pub proof fn lemma_missing_revision(raw: Seq<char>)
    requires
        url_well_formed(raw),
        url_scheme(raw) == HANDLED_PROTOCOL@,
        server_url_accepted(query_map(url_query_pairs(raw))),
        !query_map(url_query_pairs(raw)).dom().contains(REVISION_KEY@),
    ensures
        dispatch_outcome(raw) == Err::<LaunchCommandView, DispatchErrorView>(
            DispatchErrorView::MissingParam(RequiredParam::Revision),
        ),
{
}

/// A revision that carries a sign, holds anything but digits, is empty or
/// exceeds `u32::MAX` is turned down as invalid, once the gates before it
/// are passed.
pub proof fn lemma_bad_revision_is_invalid(raw: Seq<char>)
    requires
        url_well_formed(raw),
        url_scheme(raw) == HANDLED_PROTOCOL@,
        server_url_accepted(query_map(url_query_pairs(raw))),
        query_map(url_query_pairs(raw)).dom().contains(REVISION_KEY@),
        ({
            let revision = query_map(url_query_pairs(raw))[REVISION_KEY@];
            ||| revision.len() == 0
            ||| revision[0] == '-'
            ||| revision[0] == '+'
            ||| !is_numeral(revision)
            ||| numeral_value(revision) > u32::MAX
        }),
    ensures
        dispatch_outcome(raw) == Err::<LaunchCommandView, DispatchErrorView>(
            DispatchErrorView::InvalidRevision,
        ),
{
}

/// Parameter names are matched exactly: where no pair carries the name of a
/// required parameter character for character, that parameter is missing,
/// whatever names that differ from it in case or otherwise are there.
pub proof fn lemma_names_are_matched_exactly(
    pairs: Seq<(Seq<char>, Seq<char>)>,
    param: RequiredParam,
)
    requires
        forall|i: int| 0 <= i < pairs.len() ==> (#[trigger] pairs[i]).0 != param.key(),
    ensures
        !query_map(pairs).dom().contains(param.key()),
        param == RequiredParam::ServerUrl ==> request_outcome(HANDLED_PROTOCOL@, pairs) == Err::<
            LaunchCommandView,
            DispatchErrorView,
        >(DispatchErrorView::MissingParam(RequiredParam::ServerUrl)),
        param == RequiredParam::Revision && server_url_accepted(query_map(pairs))
            ==> request_outcome(HANDLED_PROTOCOL@, pairs) == Err::<
            LaunchCommandView,
            DispatchErrorView,
        >(DispatchErrorView::MissingParam(RequiredParam::Revision)),
{
    lemma_query_map_names(pairs, param.key());
}

/// A query parameter with another name than `server_url` and `revision`,
/// wherever it stands among the others, does not change the outcome.
pub proof fn lemma_unknown_parameter_is_ignored(
    scheme: Seq<char>,
    pairs: Seq<(Seq<char>, Seq<char>)>,
    at: int,
    extra: (Seq<char>, Seq<char>),
)
    requires
        0 <= at <= pairs.len(),
        extra.0 != SERVER_URL_KEY@,
        extra.0 != REVISION_KEY@,
    ensures
        request_outcome(scheme, pairs.insert(at, extra)) == request_outcome(scheme, pairs),
{
    lemma_other_names_unchanged(pairs, at, extra, SERVER_URL_KEY@);
    lemma_other_names_unchanged(pairs, at, extra, REVISION_KEY@);
}

} // verus!
