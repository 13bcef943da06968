//! What the daemon reads from and hands to the PipeWire tools: `pactl`,
//! `pw-dump`, `pw-metadata` and `pw-cli`. The tools themselves are run by the
//! caller, which passes their output in and runs the arguments it gets back.

use crate::json::{parse_json, parsed_json, Json, JsonTree};
use crate::paths::opt_text;
use crate::text::{
    all_white, contains, decimal, decimal_of, has_part, is_stable_order, join2, join3, law_decimal,
    law_sorted, law_stable_order_unique, law_starts, law_trimmed, lemma_trimmed_keeps,
    lemma_trimmed_start_skips, lines, lines_of, lists, number_of, precedes, sort_order,
    spec_is_white_space, starts, str_eq, strip_prefix, texts, trim, trim_start, trimmed,
    trimmed_start,
};
use crate::value::{finite, is_finite, non_finite_name, non_finite_text};
use vstd::prelude::*;

verus! {

// Output of a tool ------------------------------------------------------------

/// What `String::from_utf8_lossy` makes of these bytes.
pub uninterp spec fn lossy_text(bytes: Seq<u8>) -> Seq<char>;

/// `String::from_utf8_lossy`. Claims that the text depends on the bytes alone,
/// and that bytes which are UTF-8 are decoded as such.
#[verifier::external_body]
fn utf8_lossy(bytes: &[u8]) -> (text: String)
    ensures
        text@ == lossy_text(bytes@),
        vstd::utf8::valid_utf8(bytes@) ==> text@ == vstd::utf8::decode_utf8(bytes@),
{
    String::from_utf8_lossy(bytes).into_owned()
}

/// Judges a finished run of a tool: its exit status decides, and a failure is
/// reported with what the tool wrote to its standard error.
pub fn tool_outcome(tool: &str, success: bool, stderr: &[u8]) -> (outcome: Result<(), String>)
    ensures
        outcome is Ok <==> success,
        outcome matches Err(message) ==> message@ == tool@ + " failed: "@ + lossy_text(stderr@),
{
    if success {
        Ok(())
    } else {
        Err(join3(tool, " failed: ", utf8_lossy(stderr).as_str()))
    }
}

/// A finished run of a tool.
pub struct ToolRun {
    /// It exited with success.
    pub success: bool,
    /// What it wrote to its standard output.
    pub stdout: Vec<u8>,
    /// What it wrote to its standard error.
    pub stderr: Vec<u8>,
}

// The default sink ------------------------------------------------------------

/// The name in the first `Default Sink:` line.
pub open spec fn default_sink_in(lines: Seq<Seq<char>>) -> Option<Seq<char>>
    decreases lines.len(),
{
    if lines.len() == 0 {
        None
    } else if starts(lines[0], "Default Sink:"@) {
        Some(trimmed(lines[0].skip("Default Sink:"@.len() as int)))
    } else {
        default_sink_in(lines.drop_first())
    }
}

/// The default sink that the text of `pactl info` names.
pub fn default_sink_name(info: &str) -> (name: Option<String>)
    ensures
        name is Some <==> default_sink_in(lines_of(info@)) is Some,
        name matches Some(n) ==> n@ == default_sink_in(lines_of(info@))->0,
{
    let all: Vec<String> = lines(info);
    let ghost seen = texts(all@);
    let mut i: usize = 0;
    assert(seen.skip(0) == seen);
    while i < all.len()
        invariant
            i <= all@.len(),
            seen == texts(all@),
            seen == lines_of(info@),
            default_sink_in(seen) == default_sink_in(seen.skip(i as int)),
        decreases all@.len() - i,
    {
        assert(seen.skip(i as int)[0] == all@[i as int]@);
        if let Some(rest) = strip_prefix(all[i].as_str(), "Default Sink:") {
            return Some(trim(rest.as_str()));
        }
        assert(seen.skip(i as int).drop_first() == seen.skip(i + 1));
        i = i + 1;
    }
    None
}

/// The port that the lines of `pactl list sinks` report for a sink. `in_target`
/// says that the lines so far end inside the report on that sink.
pub open spec fn active_port_in(
    lines: Seq<Seq<char>>,
    sink: Seq<char>,
    in_target: bool,
) -> Option<Seq<char>>
    decreases lines.len(),
{
    if lines.len() == 0 {
        None
    } else {
        let line = trimmed_start(lines[0]);
        if starts(line, "Name: "@) {
            active_port_in(
                lines.drop_first(),
                sink,
                trimmed(line.skip("Name: "@.len() as int)) == sink,
            )
        } else if in_target && starts(line, "Active Port: "@) {
            let port = trimmed(line.skip("Active Port: "@.len() as int));
            if port.len() == 0 || port == "(null)"@ {
                None
            } else {
                Some(port)
            }
        } else {
            active_port_in(lines.drop_first(), sink, in_target)
        }
    }
}

/// The active port that the text of `pactl list sinks` reports for a sink.
/// `None` where the sink reports no port.
pub fn active_port(listing: &str, sink: &str) -> (port: Option<String>)
    ensures
        port is Some <==> active_port_in(lines_of(listing@), sink@, false) is Some,
        port matches Some(p) ==> p@ == active_port_in(lines_of(listing@), sink@, false)->0,
{
    let all: Vec<String> = lines(listing);
    let ghost seen = texts(all@);
    let mut in_target: bool = false;
    let mut i: usize = 0;
    assert(seen.skip(0) == seen);
    while i < all.len()
        invariant
            i <= all@.len(),
            seen == texts(all@),
            seen == lines_of(listing@),
            active_port_in(seen, sink@, false) == active_port_in(
                seen.skip(i as int),
                sink@,
                in_target,
            ),
        decreases all@.len() - i,
    {
        assert(seen.skip(i as int)[0] == all@[i as int]@);
        assert(seen.skip(i as int).drop_first() == seen.skip(i + 1));
        let line: String = trim_start(all[i].as_str());
        if let Some(rest) = strip_prefix(line.as_str(), "Name: ") {
            in_target = str_eq(trim(rest.as_str()).as_str(), sink);
        } else if in_target {
            if let Some(rest) = strip_prefix(line.as_str(), "Active Port: ") {
                let port: String = trim(rest.as_str());
                if port.as_str().is_empty() || str_eq(port.as_str(), "(null)") {
                    return None;
                }
                return Some(port);
            }
        }
        i = i + 1;
    }
    None
}

/// The line starts the report on a sink.
pub open spec fn is_name_line(line: Seq<char>) -> bool {
    starts(trimmed_start(line), "Name: "@)
}

/// The sink that such a line names.
pub open spec fn name_in_line(line: Seq<char>) -> Seq<char> {
    trimmed(trimmed_start(line).skip("Name: "@.len() as int))
}

/// The line reports an active port.
pub open spec fn is_port_line(line: Seq<char>) -> bool {
    starts(trimmed_start(line), "Active Port: "@)
}

/// The port that such a line reports; `None` where it is empty or `(null)`.
pub open spec fn port_in_line(line: Seq<char>) -> Option<Seq<char>> {
    let port = trimmed(trimmed_start(line).skip("Active Port: "@.len() as int));
    if port.len() == 0 || port == "(null)"@ {
        None
    } else {
        Some(port)
    }
}

/// The nearest line before `at` that names a sink is the line `name`.
pub open spec fn nearest_name(lines: Seq<Seq<char>>, name: int, at: int) -> bool {
    &&& 0 <= name < at
    &&& is_name_line(lines[name])
    &&& forall|m: int| name < m < at ==> !is_name_line(#[trigger] lines[m])
}

/// The line `at` reports an active port, and the nearest line before it that
/// names a sink names this one.
pub open spec fn reports_port(lines: Seq<Seq<char>>, sink: Seq<char>, at: int) -> bool {
    &&& 0 <= at < lines.len()
    &&& is_port_line(lines[at])
    &&& exists|name: int| #[trigger]
        nearest_name(lines, name, at) && name_in_line(lines[name]) == sink
}

/// As `reports_port`, for lines that follow others: `in_target` says that those
/// end inside the report on the sink.
spec fn reports_port_from(
    lines: Seq<Seq<char>>,
    sink: Seq<char>,
    in_target: bool,
    at: int,
) -> bool {
    ||| reports_port(lines, sink, at)
    ||| {
        &&& in_target
        &&& 0 <= at < lines.len()
        &&& is_port_line(lines[at])
        &&& forall|m: int| 0 <= m < at ==> !is_name_line(#[trigger] lines[m])
    }
}

proof fn lemma_name_or_port(line: Seq<char>)
    ensures
        !(is_name_line(line) && is_port_line(line)),
{
    reveal_strlit("Name: ");
    reveal_strlit("Active Port: ");
    let s = trimmed_start(line);
    if is_name_line(line) && is_port_line(line) {
        assert(s.take("Name: "@.len() as int)[0] == s[0]);
        assert(s.take("Active Port: "@.len() as int)[0] == s[0]);
    }
}

proof fn lemma_reports_shift(
    lines: Seq<Seq<char>>,
    sink: Seq<char>,
    in_target: bool,
    at: int,
)
    requires
        0 < at < lines.len(),
    ensures
        reports_port_from(lines, sink, in_target, at) <==> reports_port_from(
            lines.drop_first(),
            sink,
            if is_name_line(lines[0]) {
                name_in_line(lines[0]) == sink
            } else {
                in_target
            },
            at - 1,
        ),
{
    let rest = lines.drop_first();
    let inside = if is_name_line(lines[0]) {
        name_in_line(lines[0]) == sink
    } else {
        in_target
    };
    assert(forall|m: int| 0 <= m < rest.len() ==> #[trigger] rest[m] == lines[m + 1]);
    if reports_port(lines, sink, at) {
        let name = choose|name: int| #[trigger]
            nearest_name(lines, name, at) && name_in_line(lines[name]) == sink;
        if name > 0 {
            assert(rest[name - 1] == lines[name]);
            assert(nearest_name(rest, name - 1, at - 1));
        }
    }
    if reports_port(rest, sink, at - 1) {
        let name = choose|name: int| #[trigger]
            nearest_name(rest, name, at - 1) && name_in_line(rest[name]) == sink;
        assert forall|m: int| name + 1 < m < at implies !is_name_line(#[trigger] lines[m]) by {
            assert(rest[m - 1] == lines[m]);
        }
        assert(nearest_name(lines, name + 1, at));
    }
    if inside && is_port_line(rest[at - 1]) && forall|m: int|
        0 <= m < at - 1 ==> !is_name_line(#[trigger] rest[m]) {
        assert forall|m: int| 0 < m < at implies !is_name_line(#[trigger] lines[m]) by {
            assert(rest[m - 1] == lines[m]);
        }
        if is_name_line(lines[0]) {
            assert(nearest_name(lines, 0, at));
        }
    }
}

#[verifier::spinoff_prover]
#[verifier::rlimit(50)]
proof fn lemma_active_port(lines: Seq<Seq<char>>, sink: Seq<char>, in_target: bool)
    ensures
        (forall|at: int| !#[trigger] reports_port_from(lines, sink, in_target, at))
            ==> active_port_in(lines, sink, in_target) is None,
        forall|at: int|
            (#[trigger] reports_port_from(lines, sink, in_target, at) && forall|i: int|
                0 <= i < at ==> !#[trigger] reports_port_from(lines, sink, in_target, i))
                ==> active_port_in(lines, sink, in_target) == port_in_line(lines[at]),
    decreases lines.len(),
{
    if lines.len() > 0 {
        let rest = lines.drop_first();
        let inside = if is_name_line(lines[0]) {
            name_in_line(lines[0]) == sink
        } else {
            in_target
        };
        lemma_name_or_port(lines[0]);
        lemma_active_port(rest, sink, inside);
        if in_target && is_port_line(lines[0]) {
            assert(reports_port_from(lines, sink, in_target, 0));
        } else {
            assert(!reports_port_from(lines, sink, in_target, 0));
            assert(active_port_in(lines, sink, in_target) == active_port_in(rest, sink, inside));
            if forall|at: int| !#[trigger] reports_port_from(lines, sink, in_target, at) {
                assert forall|at: int| !#[trigger] reports_port_from(rest, sink, inside, at) by {
                    if 0 <= at < rest.len() {
                        lemma_reports_shift(lines, sink, in_target, at + 1);
                        assert(!reports_port_from(lines, sink, in_target, at + 1));
                    }
                }
            }
            assert forall|at: int|
                (#[trigger] reports_port_from(lines, sink, in_target, at) && forall|i: int|
                    0 <= i < at ==> !#[trigger] reports_port_from(
                        lines,
                        sink,
                        in_target,
                        i,
                    )) implies active_port_in(lines, sink, in_target) == port_in_line(
                lines[at],
            ) by {
                lemma_reports_shift(lines, sink, in_target, at);
                assert forall|i: int| 0 <= i < at - 1 implies !#[trigger] reports_port_from(
                    rest,
                    sink,
                    inside,
                    i,
                ) by {
                    lemma_reports_shift(lines, sink, in_target, i + 1);
                    assert(!reports_port_from(lines, sink, in_target, i + 1));
                }
                assert(reports_port_from(rest, sink, inside, at - 1));
                assert(rest[at - 1] == lines[at]);
            }
        }
    }
}

/// The active port of a sink is the one in the first `Active Port:` line whose
/// nearest `Name:` line before it names the sink.
pub proof fn law_active_port(lines: Seq<Seq<char>>, sink: Seq<char>, at: int)
    requires
        reports_port(lines, sink, at),
        forall|i: int| 0 <= i < at ==> !#[trigger] reports_port(lines, sink, i),
    ensures
        active_port_in(lines, sink, false) == port_in_line(lines[at]),
{
    lemma_active_port(lines, sink, false);
    assert(reports_port_from(lines, sink, false, at));
    assert forall|i: int| 0 <= i < at implies !#[trigger] reports_port_from(
        lines,
        sink,
        false,
        i,
    ) by {
        assert(!reports_port(lines, sink, i));
    }
}

/// A sink of which no line reports an active port has none.
pub proof fn law_no_active_port(lines: Seq<Seq<char>>, sink: Seq<char>)
    requires
        forall|at: int| !#[trigger] reports_port(lines, sink, at),
    ensures
        active_port_in(lines, sink, false) is None,
{
    lemma_active_port(lines, sink, false);
    assert forall|at: int| !#[trigger] reports_port_from(lines, sink, false, at) by {
        assert(!reports_port(lines, sink, at));
    }
}

/// The default sink named by what `pactl info` wrote; `None` also where the tool
/// could not be run.
pub fn current_default_sink_name(info: &Option<Vec<u8>>) -> (name: Option<String>)
    ensures
        name is Some <==> spec_default_sink_name(*info) is Some,
        name matches Some(n) ==> n@ == spec_default_sink_name(*info)->0,
{
    match info {
        Some(stdout) => default_sink_name(utf8_lossy(stdout.as_slice()).as_str()),
        None => None,
    }
}

/// The default sink named by what `pactl info` wrote.
pub open spec fn spec_default_sink_name(info: Option<Vec<u8>>) -> Option<Seq<char>> {
    match info {
        Some(stdout) => default_sink_in(lines_of(lossy_text(stdout@))),
        None => None,
    }
}

/// The active port reported by what `pactl list sinks` wrote.
pub open spec fn spec_active_port(listing: Option<Vec<u8>>, sink: Seq<char>) -> Option<Seq<char>> {
    match listing {
        Some(stdout) => active_port_in(lines_of(lossy_text(stdout@)), sink, false),
        None => None,
    }
}

/// The active port reported by what `pactl list sinks` wrote; `None` also where
/// the tool could not be run.
pub fn active_port_for_sink(listing: &Option<Vec<u8>>, sink_name: &str) -> (port: Option<String>)
    ensures
        port is Some <==> spec_active_port(*listing, sink_name@) is Some,
        port matches Some(p) ==> p@ == spec_active_port(*listing, sink_name@)->0,
{
    match listing {
        Some(stdout) => active_port(utf8_lossy(stdout.as_slice()).as_str(), sink_name),
        None => None,
    }
}

/// The identifier that profiles are matched against: the sink, and behind `::`
/// its active port where it reports one.
pub open spec fn sink_id(sink: Seq<char>, port: Option<Seq<char>>) -> Seq<char> {
    match port {
        Some(p) => sink + "::"@ + p,
        None => sink,
    }
}

/// The identifier of the current default sink, from what `pactl info` and
/// `pactl list sinks` wrote. `None` where there is no default sink.
pub fn current_default_sink_id(info: &Option<Vec<u8>>, listing: &Option<Vec<u8>>) -> (id: Option<
    String,
>)
    ensures
        id is Some <==> spec_default_sink_name(*info) is Some,
        id matches Some(i) ==> i@ == sink_id(
            spec_default_sink_name(*info)->0,
            spec_active_port(*listing, spec_default_sink_name(*info)->0),
        ),
{
    let sink: String = match current_default_sink_name(info) {
        Some(sink) => sink,
        None => return None,
    };
    match active_port_for_sink(listing, sink.as_str()) {
        Some(port) => Some(join3(sink.as_str(), "::", port.as_str())),
        None => Some(sink),
    }
}

/// Two ports of one sink give different identifiers, and either differs from the
/// sink without a port.
pub proof fn law_ports_distinguished(sink: Seq<char>, a: Seq<char>, b: Seq<char>)
    requires
        a != b,
    ensures
        sink_id(sink, Some(a)) != sink_id(sink, Some(b)),
        sink_id(sink, Some(a)) != sink_id(sink, None),
{
    reveal_strlit("::");
    let n = sink.len() as int + 2;
    assert(sink_id(sink, Some(a)).skip(n) =~= a);
    assert(sink_id(sink, Some(b)).skip(n) =~= b);
    assert(sink_id(sink, Some(a)).len() > sink.len());
}

// Nodes -----------------------------------------------------------------------

/// Why a node could not be found in a dump.
#[derive(Clone, Copy, PartialEq, Eq, Structural, Debug)]
pub enum NodeError {
    /// The dump is not JSON.
    NotJson,
    /// The dump is not a JSON array.
    NotArray,
    /// The node is there but has no id.
    NoId,
    /// No node has the name.
    NotFound,
}

impl NodeError {
    /// The error as shown to the user.
    pub open spec fn text(self, node_name: Seq<char>) -> Seq<char> {
        match self {
            NodeError::NotJson => "parsing pw-dump JSON"@,
            NodeError::NotArray => "pw-dump didn't return a JSON array"@,
            NodeError::NoId => node_name + " node has no id"@,
            NodeError::NotFound => node_name
                + " node not found — make sure filter-chain.service is running (systemctl --user status filter-chain.service)"@,
        }
    }

    /// The error as shown to the user.
    pub fn message(self, node_name: &str) -> (message: String)
        ensures
            message@ == self.text(node_name@),
    {
        match self {
            NodeError::NotJson => "parsing pw-dump JSON".to_owned(),
            NodeError::NotArray => "pw-dump didn't return a JSON array".to_owned(),
            NodeError::NoId => join2(node_name, " node has no id"),
            NodeError::NotFound => join2(
                node_name,
                " node not found — make sure filter-chain.service is running (systemctl --user status filter-chain.service)",
            ),
        }
    }
}

/// An object of a dump is a node.
pub open spec fn is_node(object: JsonTree) -> bool {
    object.text_field("type"@) == Some("PipeWire:Interface:Node"@)
}

/// The properties of a node.
pub open spec fn node_props(object: JsonTree) -> Option<JsonTree> {
    match object.field("info"@) {
        Some(info) => info.field("props"@),
        None => None,
    }
}

/// The name of a node, empty where it has none.
pub open spec fn node_name_of(object: JsonTree) -> Seq<char> {
    match node_props(object) {
        Some(props) => match props.text_field("node.name"@) {
            Some(name) => name,
            None => Seq::empty(),
        },
        None => Seq::empty(),
    }
}

/// The id of a node, of which the low 32 bits count.
pub open spec fn node_id_of(object: JsonTree) -> Option<u32> {
    match object.field("id"@) {
        Some(value) => match value.uint() {
            Some(id) => Some((id % 0x1_0000_0000) as u32),
            None => None,
        },
        None => None,
    }
}

/// The id of the first node of this name.
pub open spec fn node_in(objects: Seq<JsonTree>, name: Seq<char>) -> Result<u32, NodeError>
    decreases objects.len(),
{
    if objects.len() == 0 {
        Err(NodeError::NotFound)
    } else if is_node(objects[0]) && node_name_of(objects[0]) == name {
        match node_id_of(objects[0]) {
            Some(id) => Ok(id),
            None => Err(NodeError::NoId),
        }
    } else {
        node_in(objects.drop_first(), name)
    }
}

/// The id of a node, from a dump that may not have been JSON.
pub open spec fn node_in_dump(dump: Option<JsonTree>, name: Seq<char>) -> Result<u32, NodeError> {
    match dump {
        None => Err(NodeError::NotJson),
        Some(json) => match json.items() {
            None => Err(NodeError::NotArray),
            Some(objects) => node_in(objects, name),
        },
    }
}

/// The contents of a dump that was read as JSON, or that was not.
pub open spec fn dump_tree(dump: Option<Json>) -> Option<JsonTree> {
    match dump {
        Some(json) => Some(json@),
        None => None,
    }
}

/// What the JSON parser reads from the output of `pw-dump`; nothing where the
/// tool could not be run or failed.
pub open spec fn dump_read(run: Option<ToolRun>) -> Option<JsonTree> {
    match run {
        Some(run) => if run.success {
            parsed_json(run.stdout@)
        } else {
            None
        },
        None => None,
    }
}

fn has_node_type(object: &Json) -> (yes: bool)
    ensures
        yes == is_node(object@),
{
    match object.get_str("type") {
        Some(kind) => str_eq(kind, "PipeWire:Interface:Node"),
        None => false,
    }
}

fn props_of(object: &Json) -> (props: Option<&Json>)
    ensures
        props is Some <==> node_props(object@) is Some,
        props matches Some(p) ==> p@ == node_props(object@)->0,
{
    match object.get("info") {
        Some(info) => info.get("props"),
        None => None,
    }
}

fn name_of<'a>(object: &'a Json) -> (name: &'a str)
    ensures
        name@ == node_name_of(object@),
{
    proof {
        reveal_strlit("");
        assert(""@ =~= Seq::<char>::empty());
    }
    match props_of(object) {
        Some(props) => match props.get_str("node.name") {
            Some(name) => name,
            None => "",
        },
        None => "",
    }
}

fn id_of(object: &Json) -> (id: Option<u32>)
    ensures
        id == node_id_of(object@),
{
    match object.get("id") {
        Some(value) => match value.as_u64() {
            Some(id) => Some((id % 0x1_0000_0000) as u32),
            None => None,
        },
        None => None,
    }
}

/// The id of a node, from a dump that was read as JSON, or that was not.
pub fn find_node(dump: &Option<Json>, node_name: &str) -> (id: Result<u32, NodeError>)
    ensures
        id == node_in_dump(
            dump_tree(*dump),
            node_name@,
        ),
{
    let json: &Json = match dump {
        Some(json) => json,
        None => return Err(NodeError::NotJson),
    };
    let objects: &Vec<Json> = match json.as_array() {
        Some(objects) => objects,
        None => return Err(NodeError::NotArray),
    };
    let ghost all = json@.items()->0;
    let mut i: usize = 0;
    assert(all.skip(0) == all);
    while i < objects.len()
        invariant
            i <= objects@.len() == all.len(),
            forall|j: int| 0 <= j < objects@.len() ==> (#[trigger] objects@[j])@ == all[j],
            node_in_dump(
                dump_tree(*dump),
                node_name@,
            ) == node_in(all.skip(i as int), node_name@),
        decreases objects@.len() - i,
    {
        let object: &Json = &objects[i];
        assert(all.skip(i as int)[0] == object@);
        assert(all.skip(i as int).drop_first() == all.skip(i + 1));
        if has_node_type(object) && str_eq(name_of(object), node_name) {
            return match id_of(object) {
                Some(id) => Ok(id),
                None => Err(NodeError::NoId),
            };
        }
        i = i + 1;
    }
    Err(NodeError::NotFound)
}

/// The current id of a filter-chain node, by name, from what `pw-dump` wrote.
pub fn discover_node_id(dump: &[u8], node_name: &str) -> (id: Result<u32, NodeError>)
    ensures
        id == node_in_dump(parsed_json(dump@), node_name@),
{
    let json: Option<Json> = parse_json(dump);
    find_node(&json, node_name)
}

/// The current id of a filter-chain node, from a finished run of `pw-dump`, or
/// why it is not known: the run failed, or the node is not in what it wrote.
pub open spec fn node_in_run(
    success: bool,
    stdout: Seq<u8>,
    stderr: Seq<u8>,
    name: Seq<char>,
) -> Result<u32, Seq<char>> {
    if !success {
        Err("pw-dump"@ + " failed: "@ + lossy_text(stderr))
    } else {
        match node_in_dump(parsed_json(stdout), name) {
            Ok(id) => Ok(id),
            Err(e) => Err(e.text(name)),
        }
    }
}

/// The current id of a filter-chain node, from a finished run of `pw-dump`, or
/// the error as shown to the user.
pub fn discover_in_run(run: &ToolRun, node_name: &str) -> (id: Result<u32, String>)
    ensures
        match id {
            Ok(found) => node_in_run(run.success, run.stdout@, run.stderr@, node_name@) == Ok::<
                u32,
                Seq<char>,
            >(found),
            Err(e) => node_in_run(run.success, run.stdout@, run.stderr@, node_name@) == Err::<
                u32,
                Seq<char>,
            >(e@),
        },
{
    match tool_outcome("pw-dump", run.success, run.stderr.as_slice()) {
        Ok(_) => {},
        Err(e) => return Err(e),
    }
    match discover_node_id(run.stdout.as_slice(), node_name) {
        Ok(id) => Ok(id),
        Err(e) => Err(e.message(node_name)),
    }
}

/// The current id of the `BigSound` sink.
pub fn discover_bigsound_node_id(dump: &[u8]) -> (id: Result<u32, NodeError>)
    ensures
        id == node_in_dump(parsed_json(dump@), "BigSound"@),
{
    discover_node_id(dump, "BigSound")
}

// Output sinks ----------------------------------------------------------------

/// The name and the description under which an object of a dump is offered as
/// an output: a named audio sink other than BigSound's own. A sink without a
/// description goes by its nick, one without either by its name.
pub open spec fn real_sink(object: JsonTree) -> Option<(Seq<char>, Seq<char>)> {
    match node_props(object) {
        Some(props) => {
            let name = node_name_of(object);
            if is_node(object) && props.text_field("media.class"@) == Some("Audio/Sink"@)
                && name.len() > 0 && name != "BigSound"@ {
                match (props.text_field("node.description"@), props.text_field("node.nick"@)) {
                    (Some(description), _) => Some((name, description)),
                    (None, Some(nick)) => Some((name, nick)),
                    (None, None) => Some((name, name)),
                }
            } else {
                None
            }
        },
        None => None,
    }
}

/// The outputs among the objects of a dump, in their order.
pub open spec fn real_sinks(objects: Seq<JsonTree>) -> Seq<(Seq<char>, Seq<char>)>
    decreases objects.len(),
{
    if objects.len() == 0 {
        Seq::empty()
    } else {
        let front = real_sinks(objects.drop_last());
        match real_sink(objects.last()) {
            Some(sink) => front.push(sink),
            None => front,
        }
    }
}

/// The outputs in a dump; none in one that is not a JSON array.
pub open spec fn sinks_in_dump(dump: Option<JsonTree>) -> Seq<(Seq<char>, Seq<char>)> {
    match dump {
        Some(json) => match json.items() {
            Some(objects) => real_sinks(objects),
            None => Seq::empty(),
        },
        None => Seq::empty(),
    }
}

/// The descriptions of the outputs.
pub open spec fn descriptions(sinks: Seq<(Seq<char>, Seq<char>)>) -> Seq<Seq<char>> {
    Seq::new(sinks.len(), |i: int| sinks[i].1)
}

/// `listed` holds the outputs sorted by description, those of equal description
/// in the order in which they stand.
pub open spec fn sorted_by_description(
    sinks: Seq<(Seq<char>, Seq<char>)>,
    listed: Seq<(Seq<char>, Seq<char>)>,
) -> bool {
    exists|order: Seq<usize>| #[trigger]
        is_stable_order(descriptions(sinks), order) && listed == Seq::new(
            order.len(),
            |i: int| sinks[order[i] as int],
        )
}

/// The contents of a list of string pairs.
pub open spec fn pair_texts(pairs: Seq<(String, String)>) -> Seq<(Seq<char>, Seq<char>)> {
    Seq::new(pairs.len(), |i: int| (pairs[i].0@, pairs[i].1@))
}

fn sink_entry(object: &Json) -> (sink: Option<(String, String)>)
    ensures
        sink is Some <==> real_sink(object@) is Some,
        sink matches Some(s) ==> (s.0@, s.1@) == real_sink(object@)->0,
{
    if !has_node_type(object) {
        return None;
    }
    let props: &Json = match props_of(object) {
        Some(props) => props,
        None => return None,
    };
    match props.get_str("media.class") {
        Some(class) => {
            if !str_eq(class, "Audio/Sink") {
                return None;
            }
        },
        None => return None,
    }
    let name: &str = name_of(object);
    if name.is_empty() || str_eq(name, "BigSound") {
        return None;
    }
    let description: &str = match props.get_str("node.description") {
        Some(description) => description,
        None => match props.get_str("node.nick") {
            Some(nick) => nick,
            None => name,
        },
    };
    Some((name.to_owned(), description.to_owned()))
}

/// The outputs in a dump that was read as JSON, or that was not, sorted by
/// description.
pub fn output_sinks(dump: &Option<Json>) -> (sinks: Vec<(String, String)>)
    ensures
        sorted_by_description(
            sinks_in_dump(
                dump_tree(*dump),
            ),
            pair_texts(sinks@),
        ),
{
    let mut found: Vec<(String, String)> = Vec::new();
    let mut keys: Vec<String> = Vec::new();
    let ghost tree = dump_tree(*dump);
    if let Some(json) = dump {
        if let Some(objects) = json.as_array() {
            let ghost all = json@.items()->0;
            let mut i: usize = 0;
            while i < objects.len()
                invariant
                    i <= objects@.len() == all.len(),
                    forall|j: int| 0 <= j < objects@.len() ==> (#[trigger] objects@[j])@ == all[j],
                    pair_texts(found@) == real_sinks(all.take(i as int)),
                    texts(keys@) == descriptions(pair_texts(found@)),
                decreases objects@.len() - i,
            {
                assert(all.take(i + 1).drop_last() == all.take(i as int));
                if let Some(sink) = sink_entry(&objects[i]) {
                    let ghost before = found@;
                    let ghost keys_before = keys@;
                    keys.push(sink.1.clone());
                    found.push(sink);
                    assert(pair_texts(found@) == pair_texts(before).push((sink.0@, sink.1@)));
                    assert(texts(keys@) == texts(keys_before).push(sink.1@));
                    assert(descriptions(pair_texts(found@)) == descriptions(
                        pair_texts(before),
                    ).push(sink.1@));
                }
                i = i + 1;
            }
            assert(all.take(i as int) == all);
        }
    }
    let order: Vec<usize> = sort_order(&keys);
    let mut sinks: Vec<(String, String)> = Vec::new();
    let ghost all = pair_texts(found@);
    let mut i: usize = 0;
    while i < order.len()
        invariant
            i <= order@.len(),
            all == pair_texts(found@),
            is_stable_order(descriptions(all), order@),
            pair_texts(sinks@) == Seq::new(i as nat, |k: int| all[order@[k] as int]),
        decreases order@.len() - i,
    {
        let sink: &(String, String) = &found[order[i]];
        let ghost before = sinks@;
        sinks.push((sink.0.clone(), sink.1.clone()));
        assert(pair_texts(sinks@) == pair_texts(before).push((sink.0@, sink.1@)));
        i = i + 1;
    }
    assert(all == sinks_in_dump(tree));
    sinks
}

/// The real sinks that the output can be routed to, as pairs of name and
/// description sorted by description, from a run of `pw-dump`; none where it
/// could not be run, exited with failure, or wrote no JSON array.
pub fn list_real_output_sinks(run: &Option<ToolRun>) -> (sinks: Vec<(String, String)>)
    ensures
        sorted_by_description(sinks_in_dump(dump_read(*run)), pair_texts(sinks@)),
{
    match run {
        Some(run) => {
            if !run.success {
                return output_sinks(&None);
            }
            let json: Option<Json> = parse_json(run.stdout.as_slice());
            output_sinks(&json)
        },
        None => output_sinks(&None),
    }
}

proof fn lemma_sinks_real(objects: Seq<JsonTree>, i: int)
    requires
        0 <= i < real_sinks(objects).len(),
    ensures
        real_sinks(objects)[i].0.len() > 0,
        real_sinks(objects)[i].0 != "BigSound"@,
    decreases objects.len(),
{
    if i < real_sinks(objects.drop_last()).len() {
        lemma_sinks_real(objects.drop_last(), i);
    }
}

/// BigSound's own sink is never offered as an output, nor is one without a name.
pub proof fn law_own_sink_never_listed(
    dump: Option<JsonTree>,
    listed: Seq<(Seq<char>, Seq<char>)>,
    i: int,
)
    requires
        sorted_by_description(sinks_in_dump(dump), listed),
        0 <= i < listed.len(),
    ensures
        listed[i].0 != "BigSound"@,
        listed[i].0.len() > 0,
{
    let sinks = sinks_in_dump(dump);
    let order = choose|order: Seq<usize>| #[trigger]
        is_stable_order(descriptions(sinks), order) && listed == Seq::new(
            order.len(),
            |i: int| sinks[order[i] as int],
        );
    assert(listed[i] == sinks[order[i] as int]);
    lemma_sinks_real(dump->0.items()->0, order[i] as int);
}

/// Every output of a dump is offered, and there is one order in which they are.
pub proof fn law_listing_complete(
    dump: Option<JsonTree>,
    listed: Seq<(Seq<char>, Seq<char>)>,
    again: Seq<(Seq<char>, Seq<char>)>,
    i: int,
)
    requires
        sorted_by_description(sinks_in_dump(dump), listed),
        sorted_by_description(sinks_in_dump(dump), again),
        0 <= i < sinks_in_dump(dump).len(),
    ensures
        listed.len() == sinks_in_dump(dump).len(),
        listed.contains(sinks_in_dump(dump)[i]),
        listed == again,
{
    let sinks = sinks_in_dump(dump);
    let order = choose|order: Seq<usize>| #[trigger]
        is_stable_order(descriptions(sinks), order) && listed == Seq::new(
            order.len(),
            |i: int| sinks[order[i] as int],
        );
    let other = choose|order: Seq<usize>| #[trigger]
        is_stable_order(descriptions(sinks), order) && again == Seq::new(
            order.len(),
            |i: int| sinks[order[i] as int],
        );
    law_stable_order_unique(descriptions(sinks), order, other);
    assert(lists(order, i));
    let a = choose|a: int| 0 <= a < order.len() && order[a] == i;
    assert(listed[a] == sinks[i]);
}

// Routing and controls --------------------------------------------------------

/// The arguments of `pw-metadata` that pin the output node to a sink, or that
/// delete the pin.
pub open spec fn metadata_args(out_id: u32, target: Option<Seq<char>>) -> Seq<Seq<char>> {
    match target {
        Some(sink) => seq![
            "-n"@,
            "default"@,
            decimal_of(out_id as nat),
            "target.object"@,
            "\""@ + sink + "\""@,
            "Spa:String:JSON"@,
        ],
        None => seq![
            "-n"@,
            "default"@,
            "-d"@,
            decimal_of(out_id as nat),
            "target.object"@,
        ],
    }
}

/// The arguments of `pw-metadata` that pin the output node to a sink, or that
/// delete the pin.
pub fn set_output_target(out_id: u32, target: Option<&str>) -> (args: Vec<String>)
    ensures
        texts(args@) == metadata_args(out_id, opt_text(target)),
{
    let mut args: Vec<String> = Vec::new();
    args.push("-n".to_owned());
    args.push("default".to_owned());
    match target {
        Some(sink) => {
            args.push(decimal(out_id));
            args.push("target.object".to_owned());
            args.push(join3("\"", sink, "\""));
            args.push("Spa:String:JSON".to_owned());
        },
        None => {
            args.push("-d".to_owned());
            args.push(decimal(out_id));
            args.push("target.object".to_owned());
        },
    }
    assert(texts(args@) =~= metadata_args(out_id, opt_text(target)));
    args
}

/// The parameter object that gives one control a value.
pub open spec fn control_pod(internal: Seq<char>, value_text: Seq<char>) -> Seq<char> {
    "{ params = [ \""@ + internal + "\" "@ + value_text + " ] }"@
}

/// The arguments of `pw-cli` that give one control of a node a value.
pub open spec fn set_param_args(
    node_id: u32,
    internal: Seq<char>,
    value_text: Seq<char>,
) -> Seq<Seq<char>> {
    seq![
        "set-param"@,
        decimal_of(node_id as nat),
        "Props"@,
        control_pod(internal, value_text),
    ]
}

/// The arguments of `pw-cli` that give one control of a node a value, where
/// `value_text` is that value written out. A value that is not finite is
/// refused.
pub fn push_internal_value(node_id: u32, internal: &str, value: u64, value_text: &str) -> (args:
    Result<Vec<String>, String>)
    ensures
        args is Ok <==> finite(value),
        args matches Ok(a) ==> texts(a@) == set_param_args(node_id, internal@, value_text@),
        args matches Err(message) ==> message@ == "refusing to push non-finite value "@
            + non_finite_name(value) + " for "@ + internal@,
{
    if !is_finite(value) {
        let mut message: String = join2(
            "refusing to push non-finite value ",
            non_finite_text(value),
        );
        message.append(" for ");
        message.append(internal);
        return Err(message);
    }
    let mut pod: String = join3("{ params = [ \"", internal, "\" ");
    pod.append(value_text);
    pod.append(" ] }");
    let mut args: Vec<String> = Vec::new();
    args.push("set-param".to_owned());
    args.push(decimal(node_id));
    args.push("Props".to_owned());
    args.push(pod);
    assert(texts(args@) =~= set_param_args(node_id, internal@, value_text@));
    Ok(args)
}

/// `pw-cli set-param` failed: by its exit status, or by the error that it prints
/// while exiting with success.
pub open spec fn push_failed(success: bool, stdout: Seq<char>, stderr: Seq<char>) -> bool {
    !success || has_part(stderr, "Error:"@) || has_part(stdout, "Error:"@)
}

/// The error of a failed push: what the tool wrote to its standard error, or
/// where that is blank to its standard output.
pub open spec fn push_error(stdout: Seq<char>, stderr: Seq<char>) -> Seq<char> {
    "pw-cli set-param failed: "@ + if trimmed(stderr).len() > 0 {
        stderr
    } else {
        stdout
    }
}

/// Judges a finished `pw-cli set-param` by the text of its output.
pub fn push_verdict(success: bool, stdout: &str, stderr: &str) -> (outcome: Result<(), String>)
    ensures
        outcome is Err <==> push_failed(success, stdout@, stderr@),
        outcome matches Err(message) ==> message@ == push_error(stdout@, stderr@),
{
    if !success || contains(stderr, "Error:") || contains(stdout, "Error:") {
        let blank: bool = trim(stderr).as_str().is_empty();
        Err(
            join2(
                "pw-cli set-param failed: ",
                if !blank {
                    stderr
                } else {
                    stdout
                },
            ),
        )
    } else {
        Ok(())
    }
}

/// Judges a finished `pw-cli set-param`.
pub fn push_outcome(success: bool, stdout: &[u8], stderr: &[u8]) -> (outcome: Result<(), String>)
    ensures
        outcome is Err <==> push_failed(success, lossy_text(stdout@), lossy_text(stderr@)),
        outcome matches Err(message) ==> message@ == push_error(
            lossy_text(stdout@),
            lossy_text(stderr@),
        ),
{
    push_verdict(success, utf8_lossy(stdout).as_str(), utf8_lossy(stderr).as_str())
}

// Laws ------------------------------------------------------------------------

proof fn lemma_default_sink(lines: Seq<Seq<char>>, i: int)
    ensures
        0 <= i < lines.len() && starts(lines[i], "Default Sink:"@) && (forall|j: int|
            0 <= j < i ==> !starts(#[trigger] lines[j], "Default Sink:"@)) ==> default_sink_in(
            lines,
        ) == Some(trimmed(lines[i].skip("Default Sink:"@.len() as int))),
        (forall|j: int| 0 <= j < lines.len() ==> !starts(#[trigger] lines[j], "Default Sink:"@))
            ==> default_sink_in(lines) is None,
    decreases lines.len(),
{
    if lines.len() > 0 && !starts(lines[0], "Default Sink:"@) {
        let rest = lines.drop_first();
        lemma_default_sink(rest, i - 1);
        assert(forall|j: int| 0 <= j < rest.len() ==> #[trigger] rest[j] == lines[j + 1]);
    }
}

/// The default sink is what follows `Default Sink:` in the first line that starts
/// so, without the white space around it; without such a line there is none.
pub proof fn law_default_sink(
    lines: Seq<Seq<char>>,
    i: int,
    before: Seq<char>,
    sink: Seq<char>,
    after: Seq<char>,
)
    requires
        all_white(before),
        all_white(after),
        sink.len() > 0 ==> !spec_is_white_space(sink[0]) && !spec_is_white_space(sink.last()),
    ensures
        0 <= i < lines.len() && lines[i] == "Default Sink:"@ + (before + sink + after) && (forall|
            j: int,
        |
            0 <= j < i ==> !starts(#[trigger] lines[j], "Default Sink:"@)) ==> default_sink_in(
            lines,
        ) == Some(sink),
        (forall|j: int| 0 <= j < lines.len() ==> !starts(#[trigger] lines[j], "Default Sink:"@))
            ==> default_sink_in(lines) is None,
{
    lemma_default_sink(lines, i);
    law_starts(Seq::empty(), "Default Sink:"@, before + sink + after);
    law_trimmed(before, sink, after);
}

/// The identifier of a sink is its name, and behind two colons its port where it
/// reports one.
pub proof fn law_sink_id(sink: Seq<char>, port: Seq<char>)
    ensures
        sink_id(sink, None) == sink,
        sink_id(sink, Some(port)) == sink.push(':').push(':') + port,
{
    reveal_strlit("::");
    assert(sink_id(sink, Some(port)) =~= sink.push(':').push(':') + port);
}

proof fn lemma_node_in(objects: Seq<JsonTree>, name: Seq<char>, i: int)
    ensures
        0 <= i < objects.len() && is_node(objects[i]) && node_name_of(objects[i]) == name && (
        forall|j: int|
            0 <= j < i ==> !(is_node(#[trigger] objects[j]) && node_name_of(objects[j]) == name))
            ==> node_in(objects, name) == (match node_id_of(objects[i]) {
            Some(id) => Ok::<u32, NodeError>(id),
            None => Err(NodeError::NoId),
        }),
        (forall|j: int|
            0 <= j < objects.len() ==> !(is_node(#[trigger] objects[j]) && node_name_of(objects[j])
                == name)) ==> node_in(objects, name) == Err::<u32, NodeError>(NodeError::NotFound),
    decreases objects.len(),
{
    if objects.len() > 0 && !(is_node(objects[0]) && node_name_of(objects[0]) == name) {
        let rest = objects.drop_first();
        lemma_node_in(rest, name, i - 1);
        assert(forall|j: int| 0 <= j < rest.len() ==> #[trigger] rest[j] == objects[j + 1]);
    }
}

/// The object is a node, and the name in its properties is this one.
pub open spec fn is_node_called(object: JsonTree, name: Seq<char>) -> bool {
    &&& object.field("type"@) == Some(JsonTree::Text("PipeWire:Interface:Node"@))
    &&& object.field("info"@) is Some
    &&& object.field("info"@)->0.field("props"@) is Some
    &&& object.field("info"@)->0.field("props"@)->0.field("node.name"@) == Some(
        JsonTree::Text(name),
    )
}

proof fn lemma_node_called(object: JsonTree, name: Seq<char>)
    requires
        name.len() > 0,
    ensures
        is_node_called(object, name) <==> is_node(object) && node_name_of(object) == name,
{
}

/// The id of a node is that of the first object of the dump which is a node of
/// that name, of which the low 32 bits count. Without an id it is an error, and so it is without such a node,
/// and with a dump that is no array or no JSON.
pub proof fn law_node_found(objects: Seq<JsonTree>, name: Seq<char>, i: int, number: u64, id: u32)
    requires
        name.len() > 0,
        id as int == number as int % 0x1_0000_0000,
    ensures
        0 <= i < objects.len() && is_node_called(objects[i], name) && (forall|j: int|
            0 <= j < i ==> !is_node_called(#[trigger] objects[j], name)) ==> {
            &&& objects[i].field("id"@) == Some(JsonTree::Number(Some(number))) ==> node_in_dump(
                Some(JsonTree::Array(objects)),
                name,
            ) == Ok::<u32, NodeError>(id)
            &&& (objects[i].field("id"@) is None || !(objects[i].field("id"@)->0 is Number)
                || objects[i].field("id"@)->0->Number_0 is None) ==> node_in_dump(
                Some(JsonTree::Array(objects)),
                name,
            ) == Err::<u32, NodeError>(NodeError::NoId)
        },
        (forall|j: int| 0 <= j < objects.len() ==> !is_node_called(#[trigger] objects[j], name))
            ==> node_in_dump(Some(JsonTree::Array(objects)), name) == Err::<u32, NodeError>(
            NodeError::NotFound,
        ),
        node_in_dump(None, name) == Err::<u32, NodeError>(NodeError::NotJson),
{
    lemma_node_in(objects, name, i);
    assert forall|j: int| 0 <= j < objects.len() implies (is_node_called(
        #[trigger] objects[j],
        name,
    ) <==> is_node(objects[j]) && node_name_of(objects[j]) == name) by {
        lemma_node_called(objects[j], name);
    }
}

/// A dump that is no array holds no node.
pub proof fn law_node_needs_array(dump: JsonTree, name: Seq<char>)
    requires
        !(dump is Array),
    ensures
        node_in_dump(Some(dump), name) == Err::<u32, NodeError>(NodeError::NotArray),
        sinks_in_dump(Some(dump)).len() == 0,
        sinks_in_dump(None).len() == 0,
{
}

/// The object is a node of the class of audio sinks.
pub open spec fn is_audio_sink(object: JsonTree) -> bool {
    &&& object.field("type"@) == Some(JsonTree::Text("PipeWire:Interface:Node"@))
    &&& object.field("info"@) is Some
    &&& object.field("info"@)->0.field("props"@) is Some
    &&& object.field("info"@)->0.field("props"@)->0.field("media.class"@) == Some(
        JsonTree::Text("Audio/Sink"@),
    )
}

/// A property of a node that is a string.
pub open spec fn prop_text(object: JsonTree, key: Seq<char>) -> Option<Seq<char>> {
    match object.field("info"@) {
        Some(info) => match info.field("props"@) {
            Some(props) => match props.field(key) {
                Some(JsonTree::Text(text)) => Some(text),
                _ => None,
            },
            None => None,
        },
        None => None,
    }
}

/// An object is offered as an output exactly if it is an audio sink with a name
/// that is neither empty nor BigSound; it goes by that name, and is described by
/// its description, otherwise its nick, otherwise its name.
pub proof fn law_offered(object: JsonTree)
    ensures
        real_sink(object) is Some <==> is_audio_sink(object) && prop_text(object, "node.name"@)
            is Some && prop_text(object, "node.name"@)->0.len() > 0 && prop_text(
            object,
            "node.name"@,
        ) != Some("BigSound"@),
        real_sink(object) matches Some(sink) ==> Some(sink.0) == prop_text(object, "node.name"@)
            && sink.1 == (match prop_text(object, "node.description"@) {
            Some(description) => description,
            None => match prop_text(object, "node.nick"@) {
                Some(nick) => nick,
                None => sink.0,
            },
        }),
{
}

/// The outputs of two lists of objects are those of the first and those of the
/// second; of one object it is that one or none.
pub proof fn law_offered_one_by_one(a: Seq<JsonTree>, b: Seq<JsonTree>, object: JsonTree)
    ensures
        real_sinks(a + b) == real_sinks(a) + real_sinks(b),
        real_sinks(seq![object]) == (match real_sink(object) {
            Some(sink) => seq![sink],
            None => Seq::empty(),
        }),
        sinks_in_dump(Some(JsonTree::Array(a))) == real_sinks(a),
    decreases b.len(),
{
    let empty = Seq::<JsonTree>::empty();
    assert(seq![object].drop_last() =~= empty);
    assert(real_sinks(empty) =~= Seq::empty());
    assert(real_sinks(seq![object]) =~= (match real_sink(object) {
        Some(sink) => seq![sink],
        None => Seq::empty(),
    }));
    if b.len() == 0 {
        assert(a + b =~= a);
        assert(real_sinks(a) + real_sinks(b) =~= real_sinks(a));
    } else {
        assert((a + b).drop_last() =~= a + b.drop_last());
        law_offered_one_by_one(a, b.drop_last(), object);
        assert(real_sinks(a + b) =~= real_sinks(a) + real_sinks(b));
    }
}

proof fn lemma_sink_source(objects: Seq<JsonTree>, k: int) -> (i: int)
    requires
        0 <= k < real_sinks(objects).len(),
    ensures
        0 <= i < objects.len(),
        real_sink(objects[i]) == Some(real_sinks(objects)[k]),
    decreases objects.len(),
{
    let front = real_sinks(objects.drop_last());
    if k < front.len() {
        lemma_sink_source(objects.drop_last(), k)
    } else {
        objects.len() - 1
    }
}

proof fn lemma_sink_kept(objects: Seq<JsonTree>, i: int) -> (k: int)
    requires
        0 <= i < objects.len(),
        real_sink(objects[i]) is Some,
    ensures
        0 <= k < real_sinks(objects).len(),
        real_sinks(objects)[k] == real_sink(objects[i])->0,
    decreases objects.len(),
{
    if i < objects.len() - 1 {
        lemma_sink_kept(objects.drop_last(), i)
    } else {
        real_sinks(objects.drop_last()).len() as int
    }
}

/// Every output that is listed comes from an audio sink of the dump, with the
/// name of that sink.
pub proof fn law_listed_is_audio_sink(
    objects: Seq<JsonTree>,
    listed: Seq<(Seq<char>, Seq<char>)>,
    k: int,
) -> (i: int)
    requires
        sorted_by_description(sinks_in_dump(Some(JsonTree::Array(objects))), listed),
        0 <= k < listed.len(),
    ensures
        0 <= i < objects.len(),
        is_audio_sink(objects[i]),
        prop_text(objects[i], "node.name"@) == Some(listed[k].0),
        listed[k].0.len() > 0,
        listed[k].0 != "BigSound"@,
        listed[k].1 == (match prop_text(objects[i], "node.description"@) {
            Some(description) => description,
            None => match prop_text(objects[i], "node.nick"@) {
                Some(nick) => nick,
                None => listed[k].0,
            },
        }),
{
    let sinks = real_sinks(objects);
    let order = choose|order: Seq<usize>| #[trigger]
        is_stable_order(descriptions(sinks), order) && listed == Seq::new(
            order.len(),
            |i: int| sinks[order[i] as int],
        );
    assert(listed[k] == sinks[order[k] as int]);
    let i = lemma_sink_source(objects, order[k] as int);
    law_offered(objects[i]);
    i
}

/// Every audio sink of the dump whose name is neither empty nor BigSound is
/// listed.
pub proof fn law_audio_sink_is_listed(
    objects: Seq<JsonTree>,
    listed: Seq<(Seq<char>, Seq<char>)>,
    i: int,
    name: Seq<char>,
) -> (k: int)
    requires
        sorted_by_description(sinks_in_dump(Some(JsonTree::Array(objects))), listed),
        0 <= i < objects.len(),
        is_audio_sink(objects[i]),
        prop_text(objects[i], "node.name"@) == Some(name),
        name.len() > 0,
        name != "BigSound"@,
    ensures
        0 <= k < listed.len(),
        listed[k].0 == name,
        listed[k].1 == (match prop_text(objects[i], "node.description"@) {
            Some(description) => description,
            None => match prop_text(objects[i], "node.nick"@) {
                Some(nick) => nick,
                None => name,
            },
        }),
{
    law_offered(objects[i]);
    let sinks = real_sinks(objects);
    let at = lemma_sink_kept(objects, i);
    let order = choose|order: Seq<usize>| #[trigger]
        is_stable_order(descriptions(sinks), order) && listed == Seq::new(
            order.len(),
            |i: int| sinks[order[i] as int],
        );
    assert(lists(order, at));
    let k = choose|k: int| 0 <= k < order.len() && order[k] == at;
    assert(listed[k] == sinks[at]);
    k
}

/// As many outputs are listed as the dump holds, sorted by description.
pub proof fn law_listing_sorted(
    sinks: Seq<(Seq<char>, Seq<char>)>,
    listed: Seq<(Seq<char>, Seq<char>)>,
    a: int,
    b: int,
)
    requires
        sorted_by_description(sinks, listed),
        0 <= a < b < listed.len(),
    ensures
        listed.len() == sinks.len(),
        !precedes(listed[b].1, listed[a].1),
{
    let order = choose|order: Seq<usize>| #[trigger]
        is_stable_order(descriptions(sinks), order) && listed == Seq::new(
            order.len(),
            |i: int| sinks[order[i] as int],
        );
    law_sorted(descriptions(sinks), order, a, b, 0);
    assert(order[b] < sinks.len());
}

/// What is read from a run of `pw-dump`: the document in its output where it
/// succeeded, otherwise nothing.
pub proof fn law_dump_read(run: ToolRun)
    ensures
        run.success ==> dump_read(Some(run)) == parsed_json(run.stdout@),
        !run.success ==> dump_read(Some(run)) is None,
        dump_read(None) is None,
{
}

/// A pin names the node, the sink in quotes, and the type of the value; taking
/// it away names the node.
pub proof fn law_metadata_args(out_id: u32, sink: Seq<char>)
    ensures
        metadata_args(out_id, Some(sink)).len() == 6,
        metadata_args(out_id, Some(sink))[0] == "-n"@,
        metadata_args(out_id, Some(sink))[1] == "default"@,
        number_of(metadata_args(out_id, Some(sink))[2]) == out_id,
        metadata_args(out_id, Some(sink))[3] == "target.object"@,
        metadata_args(out_id, Some(sink))[4] == seq!['"'] + sink + seq!['"'],
        metadata_args(out_id, Some(sink))[5] == "Spa:String:JSON"@,
        metadata_args(out_id, None).len() == 5,
        metadata_args(out_id, None)[0] == "-n"@,
        metadata_args(out_id, None)[1] == "default"@,
        metadata_args(out_id, None)[2] == "-d"@,
        number_of(metadata_args(out_id, None)[3]) == out_id,
        metadata_args(out_id, None)[4] == "target.object"@,
{
    law_decimal(out_id as nat);
    reveal_strlit("\"");
    assert("\""@ =~= seq!['"']);
}

/// A push names the node, and holds the control in quotes and the value.
pub proof fn law_set_param_args(node_id: u32, internal: Seq<char>, value: Seq<char>)
    ensures
        set_param_args(node_id, internal, value).len() == 4,
        set_param_args(node_id, internal, value)[0] == "set-param"@,
        number_of(set_param_args(node_id, internal, value)[1]) == node_id,
        set_param_args(node_id, internal, value)[2] == "Props"@,
        set_param_args(node_id, internal, value)[3] == "{ params = [ "@ + seq!['"'] + internal
            + seq!['"', ' '] + value + " ] }"@,
{
    law_decimal(node_id as nat);
    reveal_strlit("{ params = [ ");
    reveal_strlit("{ params = [ \"");
    reveal_strlit("\" ");
    assert("{ params = [ \""@ =~= "{ params = [ "@ + seq!['"']);
    assert("\" "@ =~= seq!['"', ' ']);
}

/// A push fails exactly if the tool exits with failure or writes `Error:`
/// anywhere, to either output.
pub proof fn law_push_failure(success: bool, out: Seq<char>, err: Seq<char>)
    ensures
        !success ==> push_failed(success, out, err),
        has_part(out, "Error:"@) ==> push_failed(success, out, err),
        has_part(err, "Error:"@) ==> push_failed(success, out, err),
        push_failed(success, out, err) ==> !success || has_part(out, "Error:"@) || has_part(
            err,
            "Error:"@,
        ),
{
}

/// A failed push is reported with what stands in the standard error, or with the
/// standard output where the standard error is blank.
pub proof fn law_push_error(out: Seq<char>, err: Seq<char>, i: int)
    ensures
        all_white(err) ==> push_error(out, err) == "pw-cli set-param failed: "@ + out,
        0 <= i < err.len() && !spec_is_white_space(err[i]) ==> push_error(out, err)
            == "pw-cli set-param failed: "@ + err,
{
    if all_white(err) {
        let empty = Seq::<char>::empty();
        law_trimmed(err, empty, empty);
        assert(err + empty + empty =~= err);
    } else if 0 <= i < err.len() && !spec_is_white_space(err[i]) {
        lemma_trimmed_keeps(err, i);
    }
}

/// A line that names a sink: `Name: ` and the name, with any white space before
/// and around them. It reports no port.
pub proof fn law_name_line(
    indent: Seq<char>,
    before: Seq<char>,
    sink: Seq<char>,
    after: Seq<char>,
)
    requires
        all_white(indent),
        all_white(before),
        all_white(after),
        sink.len() > 0 ==> !spec_is_white_space(sink[0]) && !spec_is_white_space(sink.last()),
    ensures
        is_name_line(indent + ("Name: "@ + (before + sink + after))),
        name_in_line(indent + ("Name: "@ + (before + sink + after))) == sink,
        !is_port_line(indent + ("Name: "@ + (before + sink + after))),
{
    reveal_strlit("Name: ");
    let rest = before + sink + after;
    let line = "Name: "@ + rest;
    assert(line[0] == 'N');
    lemma_trimmed_start_skips(indent, line);
    law_starts(line, "Name: "@, rest);
    law_trimmed(before, sink, after);
    lemma_name_or_port(indent + line);
}

/// A line that reports a port: `Active Port: ` and the port, with any white space
/// before and around them. An empty port and `(null)` are none.
pub proof fn law_port_line(
    indent: Seq<char>,
    before: Seq<char>,
    port: Seq<char>,
    after: Seq<char>,
)
    requires
        all_white(indent),
        all_white(before),
        all_white(after),
        port.len() > 0 ==> !spec_is_white_space(port[0]) && !spec_is_white_space(port.last()),
    ensures
        is_port_line(indent + ("Active Port: "@ + (before + port + after))),
        port_in_line(indent + ("Active Port: "@ + (before + port + after))) == (if port.len() == 0
            || port == "(null)"@ {
            None
        } else {
            Some(port)
        }),
        !is_name_line(indent + ("Active Port: "@ + (before + port + after))),
{
    reveal_strlit("Active Port: ");
    let rest = before + port + after;
    let line = "Active Port: "@ + rest;
    assert(line[0] == 'A');
    lemma_trimmed_start_skips(indent, line);
    law_starts(line, "Active Port: "@, rest);
    law_trimmed(before, port, after);
    lemma_name_or_port(indent + line);
}

/// What the lines of a tool say is read from the text of its output; nothing is
/// known where it could not be run.
pub proof fn law_tool_output_read(stdout: Vec<u8>, sink: Seq<char>)
    ensures
        spec_default_sink_name(Some(stdout)) == default_sink_in(lines_of(lossy_text(stdout@))),
        spec_default_sink_name(None) is None,
        spec_active_port(Some(stdout), sink) == active_port_in(
            lines_of(lossy_text(stdout@)),
            sink,
            false,
        ),
        spec_active_port(None, sink) is None,
{
}

/// A run of `pw-dump` that failed is reported with its standard error; one that
/// succeeded gives the id of the node, or says why it is not known.
pub proof fn law_node_in_run(stdout: Seq<u8>, stderr: Seq<u8>, name: Seq<char>, id: u32)
    ensures
        node_in_run(false, stdout, stderr, name) == Err::<u32, Seq<char>>(
            "pw-dump failed: "@ + lossy_text(stderr),
        ),
        node_in_run(true, stdout, stderr, name) == Ok::<u32, Seq<char>>(id) <==> node_in_dump(
            parsed_json(stdout),
            name,
        ) == Ok::<u32, NodeError>(id),
        node_in_dump(parsed_json(stdout), name) matches Err(e) ==> node_in_run(
            true,
            stdout,
            stderr,
            name,
        ) == Err::<u32, Seq<char>>(e.text(name)),
        NodeError::NoId.text(name) == name + " node has no id"@,
        NodeError::NotFound.text(name) == name
            + " node not found — make sure filter-chain.service is running (systemctl --user status filter-chain.service)"@,
{
    reveal_strlit("pw-dump");
    reveal_strlit(" failed: ");
    reveal_strlit("pw-dump failed: ");
    assert("pw-dump"@ + " failed: "@ =~= "pw-dump failed: "@);
}

/// The contents of pairs of strings, one by one, and of a dump that was read.
pub proof fn law_pair_contents(pairs: Seq<(String, String)>, i: int, json: Json)
    ensures
        pair_texts(pairs).len() == pairs.len(),
        0 <= i < pairs.len() ==> pair_texts(pairs)[i] == (pairs[i].0@, pairs[i].1@),
        dump_tree(Some(json)) == Some(json@),
        dump_tree(None) is None,
{
}

/// What is listed from a run of `pw-dump` that wrote an array: every audio sink in
/// it whose name is neither empty nor BigSound, and nothing else.
pub proof fn law_sinks_are_listed(
    run: ToolRun,
    sinks: Vec<(String, String)>,
    objects: Seq<JsonTree>,
    i: int,
    name: Seq<char>,
    k: int,
) -> (at: (int, int))
    requires
        call_ensures(list_real_output_sinks, (&Some(run),), sinks),
        run.success,
        parsed_json(run.stdout@) == Some(JsonTree::Array(objects)),
    ensures
        0 <= i < objects.len() && is_audio_sink(objects[i]) && prop_text(
            objects[i],
            "node.name"@,
        ) == Some(name) && name.len() > 0 && name != "BigSound"@ ==> 0 <= at.0 < sinks@.len()
            && sinks@[at.0].0@ == name,
        0 <= k < sinks@.len() ==> 0 <= at.1 < objects.len() && is_audio_sink(objects[at.1])
            && prop_text(objects[at.1], "node.name"@) == Some(sinks@[k].0@),
{
    let listed = pair_texts(sinks@);
    let there = if 0 <= i < objects.len() && is_audio_sink(objects[i]) && prop_text(
        objects[i],
        "node.name"@,
    ) == Some(name) && name.len() > 0 && name != "BigSound"@ {
        law_audio_sink_is_listed(objects, listed, i, name)
    } else {
        0
    };
    let source = if 0 <= k < sinks@.len() {
        law_listed_is_audio_sink(objects, listed, k)
    } else {
        0
    };
    (there, source)
}

/// The id that is read from a dump is that of the first node of the name.
pub proof fn law_node_is_discovered(
    dump: &[u8],
    node_name: &str,
    found: Result<u32, NodeError>,
    objects: Seq<JsonTree>,
    i: int,
    id: u32,
)
    requires
        call_ensures(discover_node_id, (dump, node_name), found),
        parsed_json(dump@) == Some(JsonTree::Array(objects)),
        node_name@.len() > 0,
        0 <= i < objects.len(),
        is_node_called(objects[i], node_name@),
        forall|j: int| 0 <= j < i ==> !is_node_called(#[trigger] objects[j], node_name@),
        objects[i].field("id"@) == Some(JsonTree::Number(Some(id as u64))),
    ensures
        found == Ok::<u32, NodeError>(id),
{
    law_node_found(objects, node_name@, i, id as u64, id);
}

/// A push is judged a failure exactly if the tool exits with failure or writes
/// `Error:` to either output.
pub proof fn law_push_is_judged(
    success: bool,
    stdout: &str,
    stderr: &str,
    outcome: Result<(), String>,
)
    requires
        call_ensures(push_verdict, (success, stdout, stderr), outcome),
    ensures
        outcome is Ok <==> success && !has_part(stdout@, "Error:"@) && !has_part(
            stderr@,
            "Error:"@,
        ),
{
    law_push_failure(success, stdout@, stderr@);
}

} // verus!
