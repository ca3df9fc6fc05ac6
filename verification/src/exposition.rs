//! The exposition text: seven metric lines per plug.

use vstd::prelude::*;
use vstd::string::*;
use crate::clock::{is_utc_millis_stamp, timestamp_now};
use crate::text::has_no_break;
use crate::json::{
    holds_no_break, json_contents, json_member, json_render, member_contents, root_text, Contents,
};

verus! {

/// What one plug reported at one moment: the capture time and six values,
/// each as the text in which it is published.
#[derive(Clone, Debug)]
pub struct TelemetryReading {
    pub timestamp: String,
    pub power_watts: String,
    pub voltage: String,
    pub current_amps: String,
    pub temp_celsius: String,
    pub temp_fahrenheit: String,
    pub cumulative_energy_watts: String,
}

/// A reading as character sequences.
pub struct ReadingView {
    pub timestamp: Seq<char>,
    pub power_watts: Seq<char>,
    pub voltage: Seq<char>,
    pub current_amps: Seq<char>,
    pub temp_celsius: Seq<char>,
    pub temp_fahrenheit: Seq<char>,
    pub cumulative_energy_watts: Seq<char>,
}

impl View for TelemetryReading {
    type V = ReadingView;

    open spec fn view(&self) -> ReadingView {
        ReadingView {
            timestamp: self.timestamp@,
            power_watts: self.power_watts@,
            voltage: self.voltage@,
            current_amps: self.current_amps@,
            temp_celsius: self.temp_celsius@,
            temp_fahrenheit: self.temp_fahrenheit@,
            cumulative_energy_watts: self.cumulative_energy_watts@,
        }
    }
}

/// The text of the member `key` of a document: `null` where the document is
/// no object or has no such member.
pub open spec fn member_text(doc: Contents, key: Seq<char>) -> Seq<char> {
    root_text(member_contents(doc, key))
}

/// The text of the member `inner` of the member `outer` of a document: `null`
/// where either is missing.
pub open spec fn nested_text(doc: Contents, outer: Seq<char>, inner: Seq<char>) -> Seq<char> {
    root_text(member_contents(member_contents(doc, outer), inner))
}

/// A value is read by the names that lead to it: the text the document
/// holds there, and `null` where the document holds nothing there.
pub proof fn lemma_missing_values_read_null(doc: Contents, outer: Seq<char>, inner: Seq<char>)
    ensures
        member_text(doc, outer) == if doc.dom().contains(seq![outer]) {
            doc[seq![outer]]
        } else {
            "null"@
        },
        nested_text(doc, outer, inner) == if doc.dom().contains(seq![outer]) && doc.dom().contains(
            seq![outer, inner],
        ) {
            doc[seq![outer, inner]]
        } else {
            "null"@
        },
{
    assert(seq![outer] + (seq![inner] + Seq::<Seq<char>>::empty()) =~= seq![outer, inner]);
}

/// The reading that a status document gives at time `stamp`: each value as
/// its compact text, and `null` for a value the document lacks.
pub open spec fn reading_of(doc: Contents, stamp: Seq<char>) -> ReadingView {
    ReadingView {
        timestamp: stamp,
        power_watts: member_text(doc, "apower"@),
        voltage: member_text(doc, "voltage"@),
        current_amps: member_text(doc, "current"@),
        temp_celsius: nested_text(doc, "temperature"@, "tC"@),
        temp_fahrenheit: nested_text(doc, "temperature"@, "tF"@),
        cumulative_energy_watts: nested_text(doc, "aenergy"@, "total"@),
    }
}

/// One line of the exposition text: `name{hostname=alias} value`.
pub open spec fn metric_line(name: Seq<char>, alias: Seq<char>, value: Seq<char>) -> Seq<char> {
    name + "{hostname="@ + alias + "} "@ + value
}

/// The six lines of a block that carry the reported values.
pub open spec fn value_lines(reading: ReadingView, alias: Seq<char>) -> Seq<Seq<char>> {
    seq![
        metric_line("power_watts"@, alias, reading.power_watts),
        metric_line("voltage"@, alias, reading.voltage),
        metric_line("current_amps"@, alias, reading.current_amps),
        metric_line("temperature_celsius"@, alias, reading.temp_celsius),
        metric_line("temperature_fahrenheit"@, alias, reading.temp_fahrenheit),
        metric_line("running_total_power_consumed_watts"@, alias, reading.cumulative_energy_watts),
    ]
}

/// The seven lines of a block: the capture time, then the values.
pub open spec fn metric_lines(reading: ReadingView, alias: Seq<char>) -> Seq<Seq<char>> {
    seq![metric_line("current_datetime"@, alias, reading.timestamp)] + value_lines(reading, alias)
}

/// The names of the seven metrics, in the order of their lines.
pub open spec fn metric_names() -> Seq<Seq<char>> {
    seq![
        "current_datetime"@,
        "power_watts"@,
        "voltage"@,
        "current_amps"@,
        "temperature_celsius"@,
        "temperature_fahrenheit"@,
        "running_total_power_consumed_watts"@,
    ]
}

/// The seven texts of a reading, in the order of their lines.
pub open spec fn reading_texts(reading: ReadingView) -> Seq<Seq<char>> {
    seq![
        reading.timestamp,
        reading.power_watts,
        reading.voltage,
        reading.current_amps,
        reading.temp_celsius,
        reading.temp_fahrenheit,
        reading.cumulative_energy_watts,
    ]
}

/// Line `k` of a block is the line of metric `k`: its name, the label, and
/// text `k` of the reading.
pub proof fn lemma_metric_lines_by_name(reading: ReadingView, alias: Seq<char>)
    ensures
        metric_lines(reading, alias).len() == 7,
        forall|k: int|
            0 <= k < 7 ==> #[trigger] metric_lines(reading, alias)[k] == metric_line(
                metric_names()[k],
                alias,
                reading_texts(reading)[k],
            ),
{
}

/// The parts in order, with one line break between neighbours and none at
/// either end.
pub open spec fn join_with_breaks(parts: Seq<Seq<char>>) -> Seq<char>
    decreases parts.len(),
{
    if parts.len() == 0 {
        Seq::empty()
    } else if parts.len() == 1 {
        parts[0]
    } else {
        join_with_breaks(parts.drop_last()) + seq!['\n'] + parts.last()
    }
}

/// Joining one part more: the part alone where it is the first, and otherwise
/// what was joined so far, a line break and the part.
pub proof fn lemma_join_one_more(parts: Seq<Seq<char>>, part: Seq<char>)
    ensures
        join_with_breaks(parts.push(part)) == if parts.len() == 0 {
            part
        } else {
            join_with_breaks(parts) + seq!['\n'] + part
        },
        join_with_breaks(Seq::empty()) == Seq::<char>::empty(),
{
    assert(parts.push(part).drop_last() =~= parts);
}

/// The lines of a text: what stands between its line breaks, with the empty
/// text as one empty line.
pub open spec fn split_lines(text: Seq<char>) -> Seq<Seq<char>>
    decreases text.len(),
{
    if text.len() == 0 {
        seq![Seq::empty()]
    } else {
        let before = split_lines(text.drop_last());
        if text.last() == '\n' {
            before.push(Seq::empty())
        } else {
            before.drop_last().push(before.last().push(text.last()))
        }
    }
}

/// A text without a line break is one line.
pub proof fn lemma_split_one_line(line: Seq<char>)
    requires
        has_no_break(line),
    ensures
        split_lines(line) == seq![line],
    decreases line.len(),
{
    if line.len() > 0 {
        let shorter = line.drop_last();
        lemma_split_one_line(shorter);
        assert(shorter.push(line.last()) =~= line);
        assert(seq![shorter].drop_last().push(seq![shorter].last().push(line.last())) =~= seq![
            line,
        ]);
    } else {
        assert(line =~= Seq::empty());
    }
}

/// A line break and a text without one add one line.
pub proof fn lemma_split_one_more(text: Seq<char>, line: Seq<char>)
    requires
        has_no_break(line),
    ensures
        split_lines(text + seq!['\n'] + line) == split_lines(text).push(line),
    decreases line.len(),
{
    let whole = text + seq!['\n'] + line;
    if line.len() == 0 {
        assert(whole.drop_last() =~= text);
        assert(line =~= Seq::empty());
    } else {
        let shorter = line.drop_last();
        lemma_split_one_more(text, shorter);
        assert(whole.drop_last() =~= text + seq!['\n'] + shorter);
        assert(whole.last() == line.last());
        assert(shorter.push(line.last()) =~= line);
        let before = split_lines(text).push(shorter);
        assert(before.drop_last().push(before.last().push(line.last())) =~= split_lines(
            text,
        ).push(line));
    }
}

/// Splitting undoes joining: lines without a line break, joined, are the
/// lines of the text.
pub proof fn lemma_split_joined(lines: Seq<Seq<char>>)
    requires
        lines.len() >= 1,
        forall|i: int| 0 <= i < lines.len() ==> has_no_break(#[trigger] lines[i]),
    ensures
        split_lines(join_with_breaks(lines)) == lines,
    decreases lines.len(),
{
    if lines.len() == 1 {
        lemma_split_one_line(lines[0]);
        assert(seq![lines[0]] =~= lines);
    } else {
        let before = lines.drop_last();
        lemma_split_joined(before);
        lemma_split_one_more(join_with_breaks(before), lines.last());
        assert(before.push(lines.last()) =~= lines);
    }
}

/// Joining in two parts: what the first part joins to, a line break, and
/// what the second joins to.
pub proof fn lemma_join_two_parts(first: Seq<Seq<char>>, second: Seq<Seq<char>>)
    requires
        first.len() >= 1,
        second.len() >= 1,
    ensures
        join_with_breaks(first + second) == join_with_breaks(first) + seq!['\n']
            + join_with_breaks(second),
    decreases second.len(),
{
    let whole = first + second;
    assert(whole.drop_last() =~= first + second.drop_last());
    assert(whole.last() == second.last());
    if second.len() == 1 {
        assert(first + second.drop_last() =~= first);
        assert(join_with_breaks(second) == second.last());
    } else {
        lemma_join_two_parts(first, second.drop_last());
        assert(join_with_breaks(whole) =~= join_with_breaks(first) + seq!['\n']
            + join_with_breaks(second));
    }
}

/// The lines of several groups, one group after the other.
pub open spec fn all_lines(groups: Seq<Seq<Seq<char>>>) -> Seq<Seq<char>>
    decreases groups.len(),
{
    if groups.len() == 0 {
        Seq::empty()
    } else {
        all_lines(groups.drop_last()) + groups.last()
    }
}

/// Each group joined to one text.
pub open spec fn joined_groups(groups: Seq<Seq<Seq<char>>>) -> Seq<Seq<char>> {
    Seq::new(groups.len(), |i: int| join_with_breaks(groups[i]))
}

/// Groups of `size` lines each lie one after the other: line `k` of group `i`
/// is line `size * i + k` of all.
pub proof fn lemma_all_lines_by_index(groups: Seq<Seq<Seq<char>>>, size: int)
    requires
        size >= 0,
        forall|i: int| 0 <= i < groups.len() ==> (#[trigger] groups[i]).len() == size,
    ensures
        all_lines(groups).len() == size * groups.len(),
        forall|i: int, k: int|
            0 <= i < groups.len() && 0 <= k < size ==> all_lines(groups)[size * i + k]
                == #[trigger] groups[i][k],
    decreases groups.len(),
{
    if groups.len() > 0 {
        let before = groups.drop_last();
        let n = before.len() as int;
        lemma_all_lines_by_index(before, size);
        assert(size * (n + 1) == size * n + size) by (nonlinear_arith);
        assert forall|i: int, k: int| 0 <= i < groups.len() && 0 <= k < size implies all_lines(
            groups,
        )[size * i + k] == #[trigger] groups[i][k] by {
            if i < n {
                assert(size * i + k < size * n) by (nonlinear_arith)
                    requires
                        0 <= i < n,
                        0 <= k < size,
                ;
                assert(0 <= size * i + k) by (nonlinear_arith)
                    requires
                        0 <= i,
                        0 <= k,
                        0 <= size,
                ;
                assert(before[i] == groups[i]);
            } else {
                assert(i == n);
            }
        }
    } else {
        assert(size * 0 == 0);
    }
}

/// Joining the joined groups gives the text of all their lines. Where no line
/// holds a line break, the lines of that text are the lines of all the
/// groups, in order.
pub proof fn lemma_lines_of_joined_groups(groups: Seq<Seq<Seq<char>>>)
    requires
        groups.len() >= 1,
        forall|i: int| 0 <= i < groups.len() ==> (#[trigger] groups[i]).len() >= 1,
    ensures
        all_lines(groups).len() >= 1,
        join_with_breaks(joined_groups(groups)) == join_with_breaks(all_lines(groups)),
        (forall|i: int, k: int|
            0 <= i < groups.len() && 0 <= k < groups[i].len() ==> has_no_break(
                #[trigger] groups[i][k],
            )) ==> {
            &&& forall|j: int|
                0 <= j < all_lines(groups).len() ==> has_no_break(#[trigger] all_lines(groups)[j])
            &&& split_lines(join_with_breaks(joined_groups(groups))) == all_lines(groups)
        },
    decreases groups.len(),
{
    let before = groups.drop_last();
    let last = groups.last();
    assert(joined_groups(groups).drop_last() =~= joined_groups(before));
    assert(joined_groups(groups).last() == join_with_breaks(last));
    if groups.len() == 1 {
        assert(all_lines(before) =~= Seq::empty());
        assert(all_lines(groups) =~= last);
    } else {
        lemma_lines_of_joined_groups(before);
        lemma_join_two_parts(all_lines(before), last);
    }
    if forall|i: int, k: int|
        0 <= i < groups.len() && 0 <= k < groups[i].len() ==> has_no_break(
            #[trigger] groups[i][k],
        ) {
        assert forall|j: int| 0 <= j < all_lines(groups).len() implies has_no_break(
            #[trigger] all_lines(groups)[j],
        ) by {
            let n = all_lines(before).len() as int;
            if j < n {
                assert forall|i: int, k: int|
                    0 <= i < before.len() && 0 <= k < before[i].len() implies has_no_break(
                    #[trigger] before[i][k],
                ) by {
                    assert(before[i] == groups[i]);
                }
                assert(all_lines(groups)[j] == all_lines(before)[j]);
            } else {
                assert(all_lines(groups)[j] == last[j - n]);
                assert(has_no_break(groups[groups.len() - 1][j - n]));
            }
        }
        lemma_split_joined(all_lines(groups));
    }
}

/// The block of one plug: its seven lines, joined.
pub open spec fn metric_block(reading: ReadingView, alias: Seq<char>) -> Seq<char> {
    join_with_breaks(metric_lines(reading, alias))
}

/// A block has seven lines, and the capture time shows in the first of them
/// only: two blocks for the same document and label agree in the other six.
pub proof fn lemma_capture_time_in_first_line_only(
    doc: Contents,
    alias: Seq<char>,
    stamp_a: Seq<char>,
    stamp_b: Seq<char>,
)
    ensures
        metric_lines(reading_of(doc, stamp_a), alias).len() == 7,
        metric_lines(reading_of(doc, stamp_a), alias)[0] == metric_line(
            "current_datetime"@,
            alias,
            stamp_a,
        ),
        metric_lines(reading_of(doc, stamp_a), alias).skip(1) == metric_lines(
            reading_of(doc, stamp_b),
            alias,
        ).skip(1),
{
}

/// A reading holds no line break in any of its texts.
pub open spec fn reading_has_no_break(reading: ReadingView) -> bool {
    &&& has_no_break(reading.timestamp)
    &&& has_no_break(reading.power_watts)
    &&& has_no_break(reading.voltage)
    &&& has_no_break(reading.current_amps)
    &&& has_no_break(reading.temp_celsius)
    &&& has_no_break(reading.temp_fahrenheit)
    &&& has_no_break(reading.cumulative_energy_watts)
}

/// The member of a document without line breaks has none either, and has a
/// text of its own.
pub proof fn lemma_member_holds_no_break(doc: Contents, key: Seq<char>)
    requires
        holds_no_break(doc),
    ensures
        holds_no_break(member_contents(doc, key)),
        member_contents(doc, key).dom().contains(Seq::empty()),
        has_no_break(root_text(member_contents(doc, key))),
{
    reveal_strlit("null");
    assert(seq![key] + Seq::<Seq<char>>::empty() =~= seq![key]);
}

/// A document without line breaks gives a reading without line breaks, at a
/// time that is written without one.
pub proof fn lemma_reading_holds_no_break(doc: Contents, stamp: Seq<char>)
    requires
        holds_no_break(doc),
        has_no_break(stamp),
    ensures
        reading_has_no_break(reading_of(doc, stamp)),
{
    lemma_member_holds_no_break(doc, "apower"@);
    lemma_member_holds_no_break(doc, "voltage"@);
    lemma_member_holds_no_break(doc, "current"@);
    lemma_member_holds_no_break(doc, "temperature"@);
    lemma_member_holds_no_break(doc, "aenergy"@);
    lemma_member_holds_no_break(member_contents(doc, "temperature"@), "tC"@);
    lemma_member_holds_no_break(member_contents(doc, "temperature"@), "tF"@);
    lemma_member_holds_no_break(member_contents(doc, "aenergy"@), "total"@);
}

/// A metric line holds no line break where its three parts hold none.
pub proof fn lemma_metric_line_holds_no_break(name: Seq<char>, alias: Seq<char>, value: Seq<char>)
    requires
        has_no_break(name),
        has_no_break(alias),
        has_no_break(value),
    ensures
        has_no_break(metric_line(name, alias, value)),
{
    reveal_strlit("{hostname=");
    reveal_strlit("} ");
}

/// The seven lines of a block hold no line break where neither the label nor
/// the reading holds one.
pub proof fn lemma_metric_lines_hold_no_break(reading: ReadingView, alias: Seq<char>)
    requires
        has_no_break(alias),
        reading_has_no_break(reading),
    ensures
        metric_lines(reading, alias).len() == 7,
        forall|k: int| 0 <= k < 7 ==> has_no_break(#[trigger] metric_lines(reading, alias)[k]),
{
    reveal_strlit("current_datetime");
    reveal_strlit("power_watts");
    reveal_strlit("voltage");
    reveal_strlit("current_amps");
    reveal_strlit("temperature_celsius");
    reveal_strlit("temperature_fahrenheit");
    reveal_strlit("running_total_power_consumed_watts");
    lemma_metric_line_holds_no_break("current_datetime"@, alias, reading.timestamp);
    lemma_metric_line_holds_no_break("power_watts"@, alias, reading.power_watts);
    lemma_metric_line_holds_no_break("voltage"@, alias, reading.voltage);
    lemma_metric_line_holds_no_break("current_amps"@, alias, reading.current_amps);
    lemma_metric_line_holds_no_break("temperature_celsius"@, alias, reading.temp_celsius);
    lemma_metric_line_holds_no_break("temperature_fahrenheit"@, alias, reading.temp_fahrenheit);
    lemma_metric_line_holds_no_break(
        "running_total_power_consumed_watts"@,
        alias,
        reading.cumulative_energy_watts,
    );
}

/// Appends one metric line to `out`.
pub fn push_metric_line(out: &mut String, name: &str, alias: &str, value: &str)
    ensures
        final(out)@ == old(out)@ + metric_line(name@, alias@, value@),
{
    out.append(name);
    out.append("{hostname=");
    out.append(alias);
    out.append("} ");
    out.append(value);
}

/// Renders the block of one plug from its reading.
pub fn render_block(reading: &TelemetryReading, alias: &String) -> (block: String)
    ensures
        block@ == metric_block(reading@, alias@),
{
    let label = alias.as_str();
    let mut block = String::new();
    push_metric_line(&mut block, "current_datetime", label, reading.timestamp.as_str());
    block.append("\n");
    push_metric_line(&mut block, "power_watts", label, reading.power_watts.as_str());
    block.append("\n");
    push_metric_line(&mut block, "voltage", label, reading.voltage.as_str());
    block.append("\n");
    push_metric_line(&mut block, "current_amps", label, reading.current_amps.as_str());
    block.append("\n");
    push_metric_line(&mut block, "temperature_celsius", label, reading.temp_celsius.as_str());
    block.append("\n");
    push_metric_line(&mut block, "temperature_fahrenheit", label, reading.temp_fahrenheit.as_str());
    block.append("\n");
    push_metric_line(
        &mut block,
        "running_total_power_consumed_watts",
        label,
        reading.cumulative_energy_watts.as_str(),
    );
    proof {
        reveal_strlit("\n");
        let lines = metric_lines(reading@, alias@);
        lemma_join_seven(lines);
    }
    block
}

/// Seven parts joined, written out.
proof fn lemma_join_seven(parts: Seq<Seq<char>>)
    requires
        parts.len() == 7,
    ensures
        join_with_breaks(parts) =~= parts[0] + seq!['\n'] + parts[1] + seq!['\n'] + parts[2]
            + seq!['\n'] + parts[3] + seq!['\n'] + parts[4] + seq!['\n'] + parts[5] + seq!['\n']
            + parts[6],
{
    let p6 = parts.drop_last();
    let p5 = p6.drop_last();
    let p4 = p5.drop_last();
    let p3 = p4.drop_last();
    let p2 = p3.drop_last();
    let p1 = p2.drop_last();
    assert(join_with_breaks(p1) == parts[0]);
    assert(join_with_breaks(p2) == join_with_breaks(p1) + seq!['\n'] + parts[1]);
    assert(join_with_breaks(p3) == join_with_breaks(p2) + seq!['\n'] + parts[2]);
    assert(join_with_breaks(p4) == join_with_breaks(p3) + seq!['\n'] + parts[3]);
    assert(join_with_breaks(p5) == join_with_breaks(p4) + seq!['\n'] + parts[4]);
    assert(join_with_breaks(p6) == join_with_breaks(p5) + seq!['\n'] + parts[5]);
    assert(join_with_breaks(parts) == join_with_breaks(p6) + seq!['\n'] + parts[6]);
}

/// Reads the six values from a status document, each as its compact text.
pub fn read_telemetry(
    http_data: &serde_json::Value,
    timestamp: String,
) -> (reading: TelemetryReading)
    ensures
        reading@ == reading_of(json_contents(*http_data), timestamp@),
{
    let temperature = json_member(http_data, "temperature");
    let energy = json_member(http_data, "aenergy");
    TelemetryReading {
        timestamp,
        power_watts: json_render(json_member(http_data, "apower")),
        voltage: json_render(json_member(http_data, "voltage")),
        current_amps: json_render(json_member(http_data, "current")),
        temp_celsius: json_render(json_member(temperature, "tC")),
        temp_fahrenheit: json_render(json_member(temperature, "tF")),
        cumulative_energy_watts: json_render(json_member(energy, "total")),
    }
}

/// Renders the block of the plug `alias` from its status document, stamped
/// with the time of the call.
pub fn convert_to_prometheus(http_data: serde_json::Value, alias: &String) -> (block: String)
    ensures
        exists|stamp: Seq<char>|
            is_utc_millis_stamp(stamp) && block@ == #[trigger] metric_block(
                reading_of(json_contents(http_data), stamp),
                alias@,
            ),
{
    let reading = read_telemetry(&http_data, timestamp_now());
    let block = render_block(&reading, alias);
    block
}

} // verus!
