//! One scrape: the plugs are asked in order, and their blocks are joined.
//!
//! The requests themselves are made by the caller. `start` and `resume` tell
//! it what to do next; `get_metrics` runs a whole scrape over replies that
//! were recorded beforehand.

use vstd::prelude::*;
use vstd::string::*;
use crate::clock::{is_utc_millis_stamp, lemma_stamp_holds_no_break};
use crate::device::ShellySmartPlug;
use crate::exposition::{
    all_lines, convert_to_prometheus, join_with_breaks, joined_groups, lemma_all_lines_by_index,
    lemma_join_one_more, lemma_lines_of_joined_groups, lemma_metric_lines_hold_no_break,
    lemma_metric_lines_by_name, lemma_reading_holds_no_break, metric_block, metric_line,
    metric_lines, metric_names, reading_of, reading_texts, split_lines,
};
use crate::fetch::{is_success, reply_outcome, validate_reply, DeviceReply, FetchError};
use crate::json::{holds_no_break, Contents};
use crate::text::has_no_break;

verus! {

/// A scrape under way: how many plugs have been rendered, and the text so far.
#[derive(Debug)]
pub struct Scrape {
    pub rendered: usize,
    pub text: String,
}

/// What the caller does next.
#[derive(Debug)]
pub enum Progress {
    /// Ask the plug at `url`, then hand the reply to `resume` with `scrape`.
    Fetch { scrape: Scrape, url: String },
    /// Every plug was rendered: `body` is the exposition text.
    Done { body: String },
    /// A plug gave no reading: the scrape is over and has no text.
    Failed { error: FetchError },
}

/// The text after one more block: the text so far and the block, with a line
/// break between them unless the block is the first.
pub open spec fn with_block(text: Seq<char>, rendered: int, block: Seq<char>) -> Seq<char> {
    if rendered == 0 {
        text + block
    } else {
        text + seq!['\n'] + block
    }
}

/// What follows once `rendered` plugs are done and the text is `text`: the
/// next plug to ask, or the finished text.
pub open spec fn is_next_step(
    progress: Progress,
    plugs: Seq<ShellySmartPlug>,
    rendered: int,
    text: Seq<char>,
) -> bool {
    if rendered < plugs.len() {
        &&& progress matches Progress::Fetch { scrape, url }
        &&& scrape.rendered == rendered
        &&& scrape.text@ == text
        &&& url@ == plugs[rendered].url@
    } else {
        progress matches Progress::Done { body } && body@ == text
    }
}

/// `progress` continues the scrape with the block that `doc` gives at some
/// moment for the plug that was waited for.
pub open spec fn is_continued(
    progress: Progress,
    plugs: Seq<ShellySmartPlug>,
    scrape: Scrape,
    doc: Contents,
) -> bool {
    exists|stamp: Seq<char>|
        is_utc_millis_stamp(stamp) && is_next_step(
            progress,
            plugs,
            scrape.rendered + 1,
            with_block(
                scrape.text@,
                scrape.rendered as int,
                #[trigger] metric_block(
                    reading_of(doc, stamp),
                    plugs[scrape.rendered as int].alias@,
                ),
            ),
        )
}

/// What `resume` may return for a scrape and the reply of the plug it was
/// waiting for. A document that it has read holds no line break.
pub open spec fn is_resumed(
    progress: Progress,
    plugs: Seq<ShellySmartPlug>,
    scrape: Scrape,
    reply: DeviceReply,
) -> bool {
    if scrape.rendered >= plugs.len() {
        progress matches Progress::Done { body } && body@ == scrape.text@
    } else {
        match reply_outcome(reply) {
            Err(error) => progress matches Progress::Failed { error: reported } && reported
                == error,
            Ok(doc) => holds_no_break(doc) && is_continued(progress, plugs, scrape, doc),
        }
    }
}

/// The step that follows `scrape`.
fn next_step(plugs: &Vec<ShellySmartPlug>, scrape: Scrape) -> (progress: Progress)
    ensures
        is_next_step(progress, plugs@, scrape.rendered as int, scrape.text@),
{
    if scrape.rendered < plugs.len() {
        let url = plugs[scrape.rendered].url.clone();
        Progress::Fetch { scrape, url }
    } else {
        Progress::Done { body: scrape.text }
    }
}

/// Begins a scrape of `plugs`: asks for the first plug, or is done at once
/// with the empty text where there is none.
pub fn start(plugs: &Vec<ShellySmartPlug>) -> (progress: Progress)
    ensures
        is_next_step(progress, plugs@, 0, Seq::empty()),
{
    next_step(plugs, Scrape { rendered: 0, text: String::new() })
}

/// Takes the reply of the plug that `scrape` was waiting for. A reply that
/// gives no reading ends the scrape; any other adds the plug's block to the
/// text and moves on to the next plug.
pub fn resume(
    plugs: &Vec<ShellySmartPlug>,
    scrape: Scrape,
    reply: &DeviceReply,
) -> (progress: Progress)
    ensures
        is_resumed(progress, plugs@, scrape, *reply),
{
    let Scrape { rendered, text } = scrape;
    if rendered >= plugs.len() {
        return Progress::Done { body: text };
    }
    match validate_reply(reply) {
        Err(error) => Progress::Failed { error },
        Ok(document) => {
            let block = convert_to_prometheus(document, &plugs[rendered].alias);
            let mut text = text;
            if rendered > 0 {
                text.append("\n");
            }
            text.append(block.as_str());
            let progress = next_step(plugs, Scrape { rendered: rendered + 1, text });
            proof {
                reveal_strlit("\n");
                assert(text@ =~= with_block(scrape.text@, rendered as int, block@));
            }
            progress
        },
    }
}

/// Index of the first reply at or after `from` that gives no reading, or
/// `replies.len()` when every one gives a reading.
pub open spec fn first_failure(replies: Seq<DeviceReply>, from: int) -> int
    decreases replies.len() - from,
{
    if from < 0 || from >= replies.len() {
        replies.len() as int
    } else if reply_outcome(replies[from]) is Err {
        from
    } else {
        first_failure(replies, from + 1)
    }
}

/// A reply that gives no reading makes the scrape fail, whatever the other
/// plugs answered: the first failure lies at or before it. A status outside
/// the success range is such a reply, whatever its body holds.
pub proof fn lemma_failure_fails_scrape(replies: Seq<DeviceReply>, i: int)
    ensures
        0 <= i < replies.len() && reply_outcome(replies[i]) is Err ==> first_failure(replies, 0)
            <= i,
        0 <= i < replies.len() && (replies[i] matches DeviceReply::Answered { status, .. }
            && !is_success(status)) ==> first_failure(replies, 0) <= i,
{
    if 0 <= i < replies.len() {
        lemma_first_failure_is_first(replies, 0);
    }
}

/// `first_failure` names the first reply that gives no reading.
pub proof fn lemma_first_failure_is_first(replies: Seq<DeviceReply>, from: int)
    requires
        0 <= from <= replies.len(),
    ensures
        from <= first_failure(replies, from) <= replies.len(),
        first_failure(replies, from) < replies.len() ==> reply_outcome(
            replies[first_failure(replies, from)],
        ) is Err,
        forall|j: int|
            from <= j < first_failure(replies, from) ==> reply_outcome(#[trigger] replies[j]) is Ok,
    decreases replies.len() - from,
{
    if from < replies.len() && reply_outcome(replies[from]) is Ok {
        lemma_first_failure_is_first(replies, from + 1);
    }
}

/// The blocks of the first `stamps.len()` plugs: each from what the plug
/// answered, at its own moment.
pub open spec fn blocks_of(
    plugs: Seq<ShellySmartPlug>,
    replies: Seq<DeviceReply>,
    stamps: Seq<Seq<char>>,
) -> Seq<Seq<char>> {
    Seq::new(
        stamps.len(),
        |i: int|
            metric_block(reading_of(reply_outcome(replies[i])->Ok_0, stamps[i]), plugs[i].alias@),
    )
}

/// The lines of the first `stamps.len()` plugs, seven for each.
pub open spec fn groups_of(
    plugs: Seq<ShellySmartPlug>,
    replies: Seq<DeviceReply>,
    stamps: Seq<Seq<char>>,
) -> Seq<Seq<Seq<char>>> {
    Seq::new(
        stamps.len(),
        |i: int|
            metric_lines(reading_of(reply_outcome(replies[i])->Ok_0, stamps[i]), plugs[i].alias@),
    )
}

/// The lines of the first `stamps.len()` plugs, one plug after the other.
pub open spec fn lines_of(
    plugs: Seq<ShellySmartPlug>,
    replies: Seq<DeviceReply>,
    stamps: Seq<Seq<char>>,
) -> Seq<Seq<char>> {
    all_lines(groups_of(plugs, replies, stamps))
}

/// No label holds a line break.
pub open spec fn labels_hold_no_break(plugs: Seq<ShellySmartPlug>) -> bool {
    forall|i: int| 0 <= i < plugs.len() ==> has_no_break(#[trigger] plugs[i].alias@)
}

/// There are seven lines for each plug, and line `k` of plug `i` is line
/// `7 * i + k` of all: the lines keep the order of the plugs, and within a
/// plug the order of the metrics.
pub proof fn lemma_lines_of_by_index(
    plugs: Seq<ShellySmartPlug>,
    replies: Seq<DeviceReply>,
    stamps: Seq<Seq<char>>,
)
    ensures
        lines_of(plugs, replies, stamps).len() == 7 * stamps.len(),
        forall|i: int, k: int|
            0 <= i < stamps.len() && 0 <= k < 7 ==> lines_of(plugs, replies, stamps)[7 * i + k]
                == #[trigger] metric_lines(
                reading_of(reply_outcome(replies[i])->Ok_0, stamps[i]),
                plugs[i].alias@,
            )[k],
{
    let groups = groups_of(plugs, replies, stamps);
    lemma_all_lines_by_index(groups, 7);
    assert forall|i: int, k: int| 0 <= i < stamps.len() && 0 <= k < 7 implies lines_of(
        plugs,
        replies,
        stamps,
    )[7 * i + k] == #[trigger] metric_lines(
        reading_of(reply_outcome(replies[i])->Ok_0, stamps[i]),
        plugs[i].alias@,
    )[k] by {
        assert(all_lines(groups)[7 * i + k] == groups[i][k]);
    }
}

/// `body` is the exposition text of a scrape in which every plug answered:
/// one block per plug, in the order of the plugs, with one line break between
/// neighbours. Where there is a plug and no label holds a line break, the
/// lines of the text are the lines of the plugs: seven for each.
pub open spec fn is_exposition(
    body: Seq<char>,
    plugs: Seq<ShellySmartPlug>,
    replies: Seq<DeviceReply>,
) -> bool {
    exists|stamps: Seq<Seq<char>>|
        {
            &&& stamps.len() == plugs.len()
            &&& forall|i: int| 0 <= i < stamps.len() ==> is_utc_millis_stamp(#[trigger] stamps[i])
            &&& body == join_with_breaks(#[trigger] blocks_of(plugs, replies, stamps))
            &&& plugs.len() >= 1 && labels_hold_no_break(plugs) ==> split_lines(body) == lines_of(
                plugs,
                replies,
                stamps,
            )
        }
}

/// Line `7 * i + k` of `body` is the line of metric `k` with the label of
/// plug `i`, for what that plug answered at the moment `stamps[i]`.
pub open spec fn is_line_by_line(
    body: Seq<char>,
    plugs: Seq<ShellySmartPlug>,
    replies: Seq<DeviceReply>,
    stamps: Seq<Seq<char>>,
) -> bool {
    &&& stamps.len() == plugs.len()
    &&& split_lines(body).len() == 7 * plugs.len()
    &&& forall|i: int, k: int|
        0 <= i < plugs.len() && 0 <= k < 7 ==> split_lines(body)[7 * i + k] == metric_line(
            metric_names()[k],
            plugs[i].alias@,
            #[trigger] reading_texts(reading_of(reply_outcome(replies[i])->Ok_0, stamps[i]))[k],
        )
}

/// An exposition text of plugs whose labels hold no line break has seven
/// lines for each plug, in the order of the plugs and, within a plug, in the
/// order of the metrics.
pub proof fn lemma_exposition_lines(
    body: Seq<char>,
    plugs: Seq<ShellySmartPlug>,
    replies: Seq<DeviceReply>,
)
    ensures
        is_exposition(body, plugs, replies) && plugs.len() >= 1 && labels_hold_no_break(plugs)
            ==> exists|stamps: Seq<Seq<char>>| is_line_by_line(body, plugs, replies, stamps),
{
    if is_exposition(body, plugs, replies) && plugs.len() >= 1 && labels_hold_no_break(plugs) {
        let stamps = choose|stamps: Seq<Seq<char>>|
            {
                &&& stamps.len() == plugs.len()
                &&& forall|i: int|
                    0 <= i < stamps.len() ==> is_utc_millis_stamp(#[trigger] stamps[i])
                &&& body == join_with_breaks(#[trigger] blocks_of(plugs, replies, stamps))
                &&& plugs.len() >= 1 && labels_hold_no_break(plugs) ==> split_lines(body)
                    == lines_of(plugs, replies, stamps)
            };
        lemma_lines_of_by_index(plugs, replies, stamps);
        assert forall|i: int, k: int| 0 <= i < plugs.len() && 0 <= k < 7 implies split_lines(
            body,
        )[7 * i + k] == metric_line(
            metric_names()[k],
            plugs[i].alias@,
            #[trigger] reading_texts(reading_of(reply_outcome(replies[i])->Ok_0, stamps[i]))[k],
        ) by {
            let reading = reading_of(reply_outcome(replies[i])->Ok_0, stamps[i]);
            lemma_metric_lines_by_name(reading, plugs[i].alias@);
            assert(lines_of(plugs, replies, stamps)[7 * i + k] == metric_lines(
                reading,
                plugs[i].alias@,
            )[k]);
        }
        assert(is_line_by_line(body, plugs, replies, stamps));
    }
}

/// Where every document, every label and every timestamp is written without
/// a line break, the lines of the joined blocks are the lines of the plugs.
proof fn lemma_lines_of_blocks(
    plugs: Seq<ShellySmartPlug>,
    replies: Seq<DeviceReply>,
    stamps: Seq<Seq<char>>,
)
    requires
        1 <= stamps.len() == plugs.len(),
        labels_hold_no_break(plugs),
        forall|i: int| 0 <= i < stamps.len() ==> is_utc_millis_stamp(#[trigger] stamps[i]),
        forall|i: int|
            0 <= i < stamps.len() ==> holds_no_break(reply_outcome(#[trigger] replies[i])->Ok_0),
    ensures
        split_lines(join_with_breaks(blocks_of(plugs, replies, stamps))) == lines_of(
            plugs,
            replies,
            stamps,
        ),
{
    let groups = groups_of(plugs, replies, stamps);
    assert forall|i: int| 0 <= i < groups.len() implies (#[trigger] groups[i]).len() == 7 && (
    forall|k: int| 0 <= k < 7 ==> has_no_break(#[trigger] groups[i][k])) by {
        let doc = reply_outcome(replies[i])->Ok_0;
        assert(is_utc_millis_stamp(stamps[i]));
        assert(has_no_break(plugs[i].alias@));
        lemma_stamp_holds_no_break(stamps[i]);
        lemma_reading_holds_no_break(doc, stamps[i]);
        lemma_metric_lines_hold_no_break(reading_of(doc, stamps[i]), plugs[i].alias@);
    }
    lemma_lines_of_joined_groups(groups);
    assert(blocks_of(plugs, replies, stamps) =~= joined_groups(groups));
}

/// Runs one scrape of `plugs`, of which the plug at each index answered with
/// the reply at that index. The plugs are taken in order. The first reply
/// that gives no reading ends the scrape with its error, whatever the other
/// plugs answered; where there is none, the result is the exposition text,
/// of seven lines for each plug where no label holds a line break.
pub fn get_metrics(
    plugs: &Vec<ShellySmartPlug>,
    replies: &Vec<DeviceReply>,
) -> (result: Result<String, FetchError>)
    requires
        plugs.len() == replies.len(),
    ensures
        match result {
            Ok(body) => first_failure(replies@, 0) == replies.len() && is_exposition(
                body@,
                plugs@,
                replies@,
            ),
            Err(error) => first_failure(replies@, 0) < replies.len() && reply_outcome(
                replies@[first_failure(replies@, 0)],
            ) == Err::<Contents, FetchError>(error),
        },
{
    let ghost mut stamps: Seq<Seq<char>> = Seq::empty();
    let mut progress = start(plugs);
    let mut i: usize = 0;
    loop
        invariant
            plugs.len() == replies.len(),
            i <= plugs.len(),
            stamps.len() == i,
            forall|j: int| 0 <= j < stamps.len() ==> is_utc_millis_stamp(#[trigger] stamps[j]),
            first_failure(replies@, i as int) == first_failure(replies@, 0),
            forall|j: int|
                0 <= j < i ==> holds_no_break(reply_outcome(#[trigger] replies@[j])->Ok_0),
            is_next_step(
                progress,
                plugs@,
                i as int,
                join_with_breaks(blocks_of(plugs@, replies@, stamps)),
            ),
        decreases plugs.len() - i,
    {
        match progress {
            Progress::Done { body } => {
                proof {
                    if plugs@.len() >= 1 && labels_hold_no_break(plugs@) {
                        lemma_lines_of_blocks(plugs@, replies@, stamps);
                    }
                }
                return Ok(body);
            },
            Progress::Failed { error } => {
                return Err(error);
            },
            Progress::Fetch { scrape, url: _ } => {
                let next = resume(plugs, scrape, &replies[i]);
                match next {
                    Progress::Failed { error } => {
                        return Err(error);
                    },
                    _ => {
                        proof {
                            let doc = reply_outcome(replies@[i as int])->Ok_0;
                            let alias = plugs@[i as int].alias@;
                            let stamp = choose|stamp: Seq<char>|
                                is_utc_millis_stamp(stamp) && is_next_step(
                                    next,
                                    plugs@,
                                    i + 1,
                                    with_block(
                                        scrape.text@,
                                        i as int,
                                        #[trigger] metric_block(reading_of(doc, stamp), alias),
                                    ),
                                );
                            let before = blocks_of(plugs@, replies@, stamps);
                            let block = metric_block(reading_of(doc, stamp), alias);
                            stamps = stamps.push(stamp);
                            assert(blocks_of(plugs@, replies@, stamps) =~= before.push(block));
                            lemma_join_one_more(before, block);
                        }
                        progress = next;
                        i += 1;
                    },
                }
            },
        }
    }
}

} // verus!
