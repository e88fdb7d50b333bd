//! Progress of a build: what each handler writes for the events of a
//! build. A handler gives the text; writing it is left to the caller.

use crate::text::{concat2, decimal, decimal_text, string_from_utf8};
use vstd::prelude::*;
use vstd::utf8::{decode_utf8, valid_utf8};

verus! {

/// One step of the build graph.
#[derive(Debug, Clone, PartialEq, Eq)]
pub struct Vertex {
    pub digest: String,
    pub name: String,
    pub cached: bool,
    /// When the step started, in seconds, if it has.
    pub started: Option<i64>,
    /// When the step completed, in seconds, if it has.
    pub completed: Option<i64>,
    pub error: String,
}

/// The progress of one step.
#[derive(Debug, Clone, PartialEq, Eq)]
pub struct VertexStatus {
    pub vertex: String,
    pub current: i64,
    pub total: i64,
    /// When the progress was measured, in seconds, if known.
    pub timestamp: Option<i64>,
}

/// Output of one step.
#[derive(Debug, Clone, PartialEq, Eq)]
pub struct VertexLog {
    pub msg: Vec<u8>,
}

/// One record of the daemon's status stream.
#[derive(Debug, Clone, PartialEq, Eq)]
pub struct StatusUpdate {
    pub vertexes: Vec<Vertex>,
    pub statuses: Vec<VertexStatus>,
    pub logs: Vec<VertexLog>,
}

/// What a handler does with the events of a build. Each method gives the
/// text to write for its event.
pub trait ProgressHandler {
    /// The build starts.
    fn on_start(&mut self) -> String;

    /// A status record arrived.
    fn on_status(&mut self, status: &StatusUpdate) -> String;

    /// The build completed.
    fn on_complete(&mut self) -> String;

    /// The build failed.
    fn on_error(&mut self, error: &str) -> String;
}

/// Writes progress for a reader at a console.
#[derive(Debug, Clone, Copy, PartialEq, Eq)]
pub struct ConsoleProgressHandler {
    pub verbose: bool,
}

/// Writes progress as lines of JSON.
#[derive(Debug, Clone, Copy, PartialEq, Eq)]
pub struct JsonProgressHandler;

/// Writes nothing.
#[derive(Debug, Clone, Copy, PartialEq, Eq)]
pub struct SilentProgressHandler;

/// The line that the console shows for a step: completed, started, or
/// nothing yet.
pub open spec fn vertex_line(v: Vertex) -> Seq<char> {
    if v.completed is Some {
        "✅ "@ + v.name@ + "\n"@
    } else if v.started is Some {
        "⏳ "@ + v.name@ + "...\n"@
    } else {
        Seq::empty()
    }
}

/// The lines that the console shows for the steps of a record.
pub open spec fn vertex_lines(vertexes: Seq<Vertex>) -> Seq<char>
    decreases vertexes.len(),
{
    if vertexes.len() == 0 {
        Seq::empty()
    } else {
        vertex_lines(vertexes.drop_last()) + vertex_line(vertexes.last())
    }
}

/// The output that the console shows for the logs of a record: each log
/// that is well-formed UTF-8, as it is.
pub open spec fn log_text(logs: Seq<VertexLog>) -> Seq<char>
    decreases logs.len(),
{
    if logs.len() == 0 {
        Seq::empty()
    } else {
        log_text(logs.drop_last()) + (if valid_utf8(logs.last().msg@) {
            decode_utf8(logs.last().msg@)
        } else {
            Seq::empty()
        })
    }
}

/// What the console shows for a record: the lines of its steps, and with
/// `verbose` the output of its logs.
pub open spec fn console_status_text(verbose: bool, status: StatusUpdate) -> Seq<char> {
    vertex_lines(status.vertexes@) + (if verbose {
        log_text(status.logs@)
    } else {
        Seq::empty()
    })
}

impl ConsoleProgressHandler {
    /// A console handler; with `verbose` it also shows the logs.
    pub fn new(verbose: bool) -> (r: Self)
        ensures
            r.verbose == verbose,
    {
        ConsoleProgressHandler { verbose }
    }
}

impl ProgressHandler for ConsoleProgressHandler {
    fn on_start(&mut self) -> (r: String)
        ensures
            r@ == "🚀 Build started...\n"@,
            *final(self) == *old(self),
    {
        String::from_str("🚀 Build started...\n")
    }

    fn on_status(&mut self, status: &StatusUpdate) -> (r: String)
        ensures
            r@ == console_status_text(old(self).verbose, *status),
            *final(self) == *old(self),
    {
        let mut out = String::new();
        let mut i: usize = 0;
        assert(status.vertexes@.take(0) =~= Seq::<Vertex>::empty());
        while i < status.vertexes.len()
            invariant
                i <= status.vertexes.len(),
                out@ == vertex_lines(status.vertexes@.take(i as int)),
            decreases status.vertexes.len() - i,
        {
            proof {
                assert(status.vertexes@.take(i + 1).drop_last() =~= status.vertexes@.take(
                    i as int,
                ));
                assert(status.vertexes@.take(i + 1).last() == status.vertexes@[i as int]);
            }
            let ghost before = out@;
            let v = &status.vertexes[i];
            if v.completed.is_some() {
                out.append("✅ ");
                out.append(v.name.as_str());
                out.append("\n");
                assert(out@ =~= before + ("✅ "@ + v.name@ + "\n"@));
            } else if v.started.is_some() {
                out.append("⏳ ");
                out.append(v.name.as_str());
                out.append("...\n");
                assert(out@ =~= before + ("⏳ "@ + v.name@ + "...\n"@));
            } else {
                assert(out@ =~= before + Seq::<char>::empty());
            }
            i += 1;
        }
        assert(status.vertexes@.take(i as int) =~= status.vertexes@);
        if self.verbose {
            let ghost head = out@;
            let mut j: usize = 0;
            assert(status.logs@.take(0) =~= Seq::<VertexLog>::empty());
            assert(out@ =~= head + log_text(status.logs@.take(0)));
            while j < status.logs.len()
                invariant
                    j <= status.logs.len(),
                    out@ == head + log_text(status.logs@.take(j as int)),
                decreases status.logs.len() - j,
            {
                proof {
                    assert(status.logs@.take(j + 1).drop_last() =~= status.logs@.take(j as int));
                    assert(status.logs@.take(j + 1).last() == status.logs@[j as int]);
                }
                let ghost before = out@;
                let ghost sofar = log_text(status.logs@.take(j as int));
                match string_from_utf8(
                    vstd::slice::slice_to_vec(status.logs[j].msg.as_slice()),
                ) {
                    Some(text) => {
                        out.append(text.as_str());
                        assert(out@ =~= head + (sofar + text@));
                    },
                    None => {
                        assert(out@ =~= head + (sofar + Seq::<char>::empty()));
                    },
                }
                j += 1;
            }
            assert(status.logs@.take(j as int) =~= status.logs@);
        } else {
            assert(out@ =~= out@ + Seq::<char>::empty());
        }
        out
    }

    fn on_complete(&mut self) -> (r: String)
        ensures
            r@ == "✨ Build completed successfully!\n"@,
            *final(self) == *old(self),
    {
        String::from_str("✨ Build completed successfully!\n")
    }

    fn on_error(&mut self, error: &str) -> (r: String)
        ensures
            r@ == "❌ Build failed: "@ + error@ + "\n"@,
            *final(self) == *old(self),
    {
        let mut out = concat2("❌ Build failed: ", error);
        out.append("\n");
        out
    }
}

impl SilentProgressHandler {
    /// A handler that writes nothing.
    pub fn new() -> (r: Self) {
        SilentProgressHandler
    }
}

impl ProgressHandler for SilentProgressHandler {
    fn on_start(&mut self) -> (r: String)
        ensures
            r@ == Seq::<char>::empty(),
    {
        String::new()
    }

    fn on_status(&mut self, status: &StatusUpdate) -> (r: String)
        ensures
            r@ == Seq::<char>::empty(),
    {
        String::new()
    }

    fn on_complete(&mut self) -> (r: String)
        ensures
            r@ == Seq::<char>::empty(),
    {
        String::new()
    }

    fn on_error(&mut self, error: &str) -> (r: String)
        ensures
            r@ == Seq::<char>::empty(),
    {
        String::new()
    }
}

/// The JSON string literal of a text, as `serde_json` writes it.
pub uninterp spec fn json_quoted(text: Seq<char>) -> Seq<char>;

/// `serde_json::to_string` of the serde_json crate, applied to a text: the
/// JSON string literal of the text, with its quotes and escapes. Believed,
/// not proved; the result is named, not described.
#[verifier::external_body]
fn json_string(text: &str) -> (r: String)
    ensures
        r@ == json_quoted(text@),
{
    serde_json::to_string(text).unwrap_or_default()
}

/// A signed number in decimal digits.
pub open spec fn signed_text(x: i64) -> Seq<char> {
    if x < 0 {
        seq!['-'] + decimal_text((-x) as nat)
    } else {
        decimal_text(x as nat)
    }
}

/// A number, or `null` where there is none.
pub open spec fn json_number(x: Option<i64>) -> Seq<char> {
    match x {
        Some(n) => signed_text(n),
        None => "null"@,
    }
}

/// `true` or `false`.
pub open spec fn json_bool(b: bool) -> Seq<char> {
    if b {
        "true"@
    } else {
        "false"@
    }
}

/// A step as a JSON object, its keys in alphabetical order, given the
/// string literals of its digest, its error and its name.
pub open spec fn vertex_object_text(
    v: Vertex,
    digest: Seq<char>,
    error: Seq<char>,
    name: Seq<char>,
) -> Seq<char> {
    "{\"cached\":"@ + json_bool(v.cached) + ",\"completed\":"@ + json_number(v.completed)
        + ",\"digest\":"@ + digest + ",\"error\":"@ + error + ",\"name\":"@ + name
        + ",\"started\":"@ + json_number(v.started) + "}"@
}

/// A step as a JSON object.
pub open spec fn json_vertex(v: Vertex) -> Seq<char> {
    vertex_object_text(v, json_quoted(v.digest@), json_quoted(v.error@), json_quoted(v.name@))
}

/// The progress of a step as a JSON object, its keys in alphabetical
/// order, given the string literal of its step.
pub open spec fn status_object_text(s: VertexStatus, vertex: Seq<char>) -> Seq<char> {
    "{\"current\":"@ + signed_text(s.current) + ",\"timestamp\":"@ + json_number(s.timestamp)
        + ",\"total\":"@ + signed_text(s.total) + ",\"vertex\":"@ + vertex + "}"@
}

/// The progress of a step as a JSON object.
pub open spec fn json_vertex_status(s: VertexStatus) -> Seq<char> {
    status_object_text(s, json_quoted(s.vertex@))
}

/// A record as one line of JSON, given the objects of its progress
/// entries and of its steps.
pub open spec fn status_line_text(statuses: Seq<Seq<char>>, vertexes: Seq<Seq<char>>) -> Seq<
    char,
> {
    "{\"statuses\":["@ + comma_joined(statuses) + "],\"vertexes\":["@ + comma_joined(vertexes)
        + "]}\n"@
}

/// The line that reports a failure, given the string literal of the
/// error.
pub open spec fn error_line_text(error: Seq<char>) -> Seq<char> {
    "{\"error\":"@ + error + ",\"status\":\"failed\"}\n"@
}

/// Texts with commas between them.
pub open spec fn comma_joined(items: Seq<Seq<char>>) -> Seq<char> {
    crate::text::joined(items, ","@)
}

/// A record as one line of JSON.
pub open spec fn json_status_text(status: StatusUpdate) -> Seq<char> {
    status_line_text(
        status.statuses@.map_values(|s: VertexStatus| json_vertex_status(s)),
        status.vertexes@.map_values(|v: Vertex| json_vertex(v)),
    )
}

/// A signed number in decimal digits.
pub fn signed_decimal(x: i64) -> (r: String)
    ensures
        r@ == signed_text(x),
{
    if x < 0 {
        let magnitude: u64 = ((-(x + 1)) as u64) + 1;
        let digits = decimal(magnitude);
        proof {
            reveal_strlit("-");
            assert("-"@ =~= seq!['-']);
        }
        concat2("-", digits.as_str())
    } else {
        decimal(x as u64)
    }
}

/// A number, or `null` where there is none.
fn number_or_null(x: Option<i64>) -> (r: String)
    ensures
        r@ == json_number(x),
{
    match x {
        Some(n) => signed_decimal(n),
        None => String::from_str("null"),
    }
}

/// A step as a JSON object, given the string literals of its digest, its
/// error and its name.
pub fn vertex_object(v: &Vertex, digest: &str, error: &str, name: &str) -> (r: String)
    ensures
        r@ == vertex_object_text(*v, digest@, error@, name@),
{
    let mut out = String::from_str("{\"cached\":");
    out.append(if v.cached { "true" } else { "false" });
    out.append(",\"completed\":");
    out.append(number_or_null(v.completed).as_str());
    out.append(",\"digest\":");
    out.append(digest);
    out.append(",\"error\":");
    out.append(error);
    out.append(",\"name\":");
    out.append(name);
    out.append(",\"started\":");
    out.append(number_or_null(v.started).as_str());
    out.append("}");
    out
}

/// The progress of a step as a JSON object, given the string literal of
/// its step.
pub fn status_object(s: &VertexStatus, vertex: &str) -> (r: String)
    ensures
        r@ == status_object_text(*s, vertex@),
{
    let mut out = String::from_str("{\"current\":");
    out.append(signed_decimal(s.current).as_str());
    out.append(",\"timestamp\":");
    out.append(number_or_null(s.timestamp).as_str());
    out.append(",\"total\":");
    out.append(signed_decimal(s.total).as_str());
    out.append(",\"vertex\":");
    out.append(vertex);
    out.append("}");
    out
}

/// A record as one line of JSON, given the objects of its progress
/// entries and of its steps.
pub fn status_line(statuses: &Vec<String>, vertexes: &Vec<String>) -> (r: String)
    ensures
        r@ == status_line_text(crate::text::views(statuses@), crate::text::views(vertexes@)),
{
    let mut out = String::from_str("{\"statuses\":[");
    out.append(crate::text::join(statuses, ",").as_str());
    out.append("],\"vertexes\":[");
    out.append(crate::text::join(vertexes, ",").as_str());
    out.append("]}\n");
    out
}

/// The line that reports a failure, given the string literal of the
/// error.
pub fn error_line(error: &str) -> (r: String)
    ensures
        r@ == error_line_text(error@),
{
    let mut out = String::from_str("{\"error\":");
    out.append(error);
    out.append(",\"status\":\"failed\"}\n");
    out
}

/// A step as a JSON object.
fn vertex_json(v: &Vertex) -> (r: String)
    ensures
        r@ == json_vertex(*v),
{
    let digest = json_string(v.digest.as_str());
    let error = json_string(v.error.as_str());
    let name = json_string(v.name.as_str());
    vertex_object(v, digest.as_str(), error.as_str(), name.as_str())
}

/// The progress of a step as a JSON object.
fn vertex_status_json(s: &VertexStatus) -> (r: String)
    ensures
        r@ == json_vertex_status(*s),
{
    let vertex = json_string(s.vertex.as_str());
    status_object(s, vertex.as_str())
}

impl JsonProgressHandler {
    /// A handler that writes JSON.
    pub fn new() -> (r: Self) {
        JsonProgressHandler
    }
}

impl ProgressHandler for JsonProgressHandler {
    fn on_start(&mut self) -> (r: String)
        ensures
            r@ == "{\"status\": \"started\"}\n"@,
    {
        String::from_str("{\"status\": \"started\"}\n")
    }

    fn on_status(&mut self, status: &StatusUpdate) -> (r: String)
        ensures
            r@ == json_status_text(*status),
    {
        let mut statuses: Vec<String> = Vec::new();
        let mut i: usize = 0;
        let ghost want_s = status.statuses@.map_values(|s: VertexStatus| json_vertex_status(s));
        while i < status.statuses.len()
            invariant
                i <= status.statuses.len(),
                want_s == status.statuses@.map_values(|s: VertexStatus| json_vertex_status(s)),
                crate::text::views(statuses@) =~= want_s.take(i as int),
            decreases status.statuses.len() - i,
        {
            let ghost before = crate::text::views(statuses@);
            let item = vertex_status_json(&status.statuses[i]);
            statuses.push(item);
            assert(crate::text::views(statuses@) =~= before.push(want_s[i as int]));
            assert(want_s.take(i + 1) =~= want_s.take(i as int).push(want_s[i as int]));
            i += 1;
        }
        assert(want_s.take(i as int) =~= want_s);
        let mut vertexes: Vec<String> = Vec::new();
        let mut j: usize = 0;
        let ghost want_v = status.vertexes@.map_values(|v: Vertex| json_vertex(v));
        while j < status.vertexes.len()
            invariant
                j <= status.vertexes.len(),
                want_v == status.vertexes@.map_values(|v: Vertex| json_vertex(v)),
                crate::text::views(vertexes@) =~= want_v.take(j as int),
            decreases status.vertexes.len() - j,
        {
            let ghost before = crate::text::views(vertexes@);
            let item = vertex_json(&status.vertexes[j]);
            vertexes.push(item);
            assert(crate::text::views(vertexes@) =~= before.push(want_v[j as int]));
            assert(want_v.take(j + 1) =~= want_v.take(j as int).push(want_v[j as int]));
            j += 1;
        }
        assert(want_v.take(j as int) =~= want_v);
        status_line(&statuses, &vertexes)
    }

    fn on_complete(&mut self) -> (r: String)
        ensures
            r@ == "{\"status\": \"completed\"}\n"@,
    {
        String::from_str("{\"status\": \"completed\"}\n")
    }

    fn on_error(&mut self, error: &str) -> (r: String)
        ensures
            r@ == error_line_text(json_quoted(error@)),
    {
        let quoted = json_string(error);
        error_line(quoted.as_str())
    }
}

} // verus!
