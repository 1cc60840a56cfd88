//! Packing lines into datagrams of bounded size, in order, greedily.

use crate::text::{byte_len, join, lemma_byte_len_concat, size_in_bytes};
use vstd::prelude::*;

verus! {

/// Whether `line` no longer fits behind `acc` and a newline within `max` bytes.
pub open spec fn overflows(acc: Seq<char>, line: Seq<char>, max: nat) -> bool {
    byte_len(acc) + 1 + byte_len(line) > max
}

/// The datagrams that come out when `acc` is the datagram being filled and
/// `rest` are the lines still to place: a line that no longer fits closes the
/// datagram and opens the next one; at the end the datagram being filled goes
/// out unless it is empty.
pub open spec fn pack_from(acc: Seq<char>, rest: Seq<Seq<char>>, max: nat) -> Seq<Seq<char>>
    decreases rest.len(),
{
    if rest.len() == 0 {
        if acc.len() == 0 {
            Seq::empty()
        } else {
            seq![acc]
        }
    } else if overflows(acc, rest[0], max) {
        seq![acc] + pack_from(rest[0], rest.drop_first(), max)
    } else {
        pack_from(acc + "\n"@ + rest[0], rest.drop_first(), max)
    }
}

/// The datagrams that `lines` are packed into under the size limit `max`.
pub open spec fn pack(lines: Seq<Seq<char>>, max: nat) -> Seq<Seq<char>> {
    if lines.len() == 0 {
        Seq::empty()
    } else {
        pack_from(lines[0], lines.drop_first(), max)
    }
}

/// The text of a datagram that holds the lines of `group`.
pub open spec fn joined(group: Seq<Seq<char>>) -> Seq<char> {
    join(group, "\n"@)
}

/// The groups that come out when `current` holds the lines of the datagram
/// being filled and `rest` are the lines still to place.
pub open spec fn group_from(current: Seq<Seq<char>>, rest: Seq<Seq<char>>, max: nat) -> Seq<
    Seq<Seq<char>>,
>
    decreases rest.len(),
{
    if rest.len() == 0 {
        seq![current]
    } else if overflows(joined(current), rest[0], max) {
        seq![current] + group_from(seq![rest[0]], rest.drop_first(), max)
    } else {
        group_from(current.push(rest[0]), rest.drop_first(), max)
    }
}

/// The lines of each datagram that `lines` are packed into: each group takes
/// the lines that follow the group before it, as many as fit.
pub open spec fn groups(lines: Seq<Seq<char>>, max: nat) -> Seq<Seq<Seq<char>>> {
    if lines.len() == 0 {
        Seq::empty()
    } else {
        group_from(seq![lines[0]], lines.drop_first(), max)
    }
}

/// The texts of the datagrams that hold the lines of `parts`, group by group.
pub open spec fn texts(parts: Seq<Seq<Seq<char>>>) -> Seq<Seq<char>> {
    parts.map_values(|group: Seq<Seq<char>>| joined(group))
}

/// The groups that go out as datagrams: all of them, but for a last group
/// whose text is empty, which is one that holds a single empty line.
pub open spec fn sent_groups(lines: Seq<Seq<char>>, max: nat) -> Seq<Seq<Seq<char>>> {
    let all = groups(lines, max);
    if all.len() > 0 && joined(all.last()).len() == 0 {
        all.drop_last()
    } else {
        all
    }
}

/// Whether no line of `lines` is empty.
pub open spec fn no_empty_line(lines: Seq<Seq<char>>) -> bool {
    forall|i: int| 0 <= i < lines.len() ==> (#[trigger] lines[i]).len() > 0
}

/// Whether every line of `lines` fits alone in `max` bytes.
pub open spec fn each_fits(lines: Seq<Seq<char>>, max: nat) -> bool {
    forall|i: int| 0 <= i < lines.len() ==> byte_len(#[trigger] lines[i]) <= max
}

/// Whether `parts` cuts `lines` into consecutive groups, none of them empty,
/// whose lines fit together, newlines included, in `max` bytes.
pub open spec fn fitting_split(
    parts: Seq<Seq<Seq<char>>>,
    lines: Seq<Seq<char>>,
    max: nat,
) -> bool {
    &&& parts.flatten() == lines
    &&& forall|k: int|
        0 <= k < parts.len() ==> (#[trigger] parts[k]).len() > 0 && byte_len(joined(parts[k]))
            <= max
}

/// Whether a line of `line_size` bytes no longer fits behind `acc_size` bytes
/// and a newline within `max` bytes.
pub fn exceeds(acc_size: usize, line_size: usize, max: usize) -> (over: bool)
    ensures
        over == (acc_size + 1 + line_size > max),
{
    acc_size >= max || line_size > max - acc_size - 1
}

/// Packs `lines` into datagrams of at most `max` bytes each, as far as single
/// lines allow: lines keep their order, a newline joins those that share a
/// datagram, and a line is never split.
pub fn pack_lines(lines: &Vec<String>, max: usize) -> (datagrams: Vec<String>)
    ensures
        datagrams.deep_view() == pack(lines.deep_view(), max as nat),
{
    let mut datagrams: Vec<String> = Vec::new();
    if lines.len() == 0 {
        return datagrams;
    }
    let ghost all = lines.deep_view();
    let mut acc = lines[0].clone();
    let mut i: usize = 1;
    while i < lines.len()
        invariant
            1 <= i <= lines.len(),
            all == lines.deep_view(),
            datagrams.deep_view() + pack_from(acc@, all.skip(i as int), max as nat) == pack(
                all,
                max as nat,
            ),
        decreases lines.len() - i,
    {
        let line = &lines[i];
        assert(all.skip(i as int).drop_first() == all.skip(i + 1));
        if exceeds(size_in_bytes(acc.as_str()), size_in_bytes(line.as_str()), max) {
            datagrams.push(acc);
            acc = line.clone();
        } else {
            acc.append("\n");
            acc.append(line.as_str());
        }
        i = i + 1;
    }
    if !acc.as_str().is_empty() {
        datagrams.push(acc);
    }
    datagrams
}
/// The lines behind the first are not empty where none is.
proof fn lemma_rest_has_no_empty_line(lines: Seq<Seq<char>>)
    requires
        lines.len() > 0,
        no_empty_line(lines),
    ensures
        lines[0].len() > 0,
        no_empty_line(lines.drop_first()),
{
    let tail = lines.drop_first();
    assert forall|i: int| 0 <= i < tail.len() implies (#[trigger] tail[i]).len() > 0 by {
        assert(tail[i] == lines[i + 1]);
    }
}

/// The lines behind the first fit where each one does.
proof fn lemma_rest_fits(lines: Seq<Seq<char>>, max: nat)
    requires
        lines.len() > 0,
        each_fits(lines, max),
    ensures
        byte_len(lines[0]) <= max,
        each_fits(lines.drop_first(), max),
{
    let tail = lines.drop_first();
    assert forall|i: int| 0 <= i < tail.len() implies byte_len(#[trigger] tail[i]) <= max by {
        assert(tail[i] == lines[i + 1]);
    }
}

/// The newline that joins two lines takes one byte.
pub proof fn lemma_newline_size()
    ensures
        byte_len("\n"@) == 1,
{
    reveal_strlit("\n");
    vstd::utf8::is_ascii_chars_encode_utf8("\n"@);
}

/// A line more in a group is a newline and that line more in its text.
proof fn lemma_joined_push(group: Seq<Seq<char>>, line: Seq<char>)
    requires
        group.len() > 0,
    ensures
        joined(group.push(line)) == joined(group) + "\n"@ + line,
{
    assert(group.push(line).drop_last() == group);
}

/// A group of lines that are not empty has a text that is not empty.
proof fn lemma_joined_nonempty(group: Seq<Seq<char>>)
    requires
        group.len() > 0,
        no_empty_line(group),
    ensures
        joined(group).len() > 0,
    decreases group.len(),
{
    if group.len() > 1 {
        assert(group.last().len() > 0);
    } else {
        assert(group[0].len() > 0);
    }
}

/// More lines in a group never make its text smaller.
proof fn lemma_joined_grows(group: Seq<Seq<char>>, more: Seq<Seq<char>>)
    requires
        group.len() > 0,
    ensures
        byte_len(joined(group)) <= byte_len(joined(group + more)),
    decreases more.len(),
{
    if more.len() == 0 {
        assert(group + more == group);
    } else {
        let shorter = group + more.drop_last();
        lemma_joined_grows(group, more.drop_last());
        assert(shorter.push(more.last()) == group + more);
        lemma_joined_push(shorter, more.last());
        lemma_byte_len_concat(joined(shorter) + "\n"@, more.last());
        lemma_byte_len_concat(joined(shorter), "\n"@);
    }
}

/// The text of a group is at least as long as its last line.
proof fn lemma_joined_ends_with_last(group: Seq<Seq<char>>)
    requires
        group.len() > 0,
    ensures
        joined(group).len() >= group.last().len(),
{
}

/// What `lemma_pack_keeps_lines` states, for a datagram that is being filled.
proof fn lemma_group_from(current: Seq<Seq<char>>, rest: Seq<Seq<char>>, max: nat)
    requires
        current.len() > 0,
    ensures
        group_from(current, rest, max).len() > 0,
        group_from(current, rest, max).flatten() == current + rest,
        forall|k: int|
            0 <= k < group_from(current, rest, max).len() ==> (#[trigger] group_from(
                current,
                rest,
                max,
            )[k]).len() > 0,
        group_from(current, rest, max).last().last() == (current + rest).last(),
        pack_from(joined(current), rest, max) == texts(
            if joined(group_from(current, rest, max).last()).len() == 0 {
                group_from(current, rest, max).drop_last()
            } else {
                group_from(current, rest, max)
            },
        ),
    decreases rest.len(),
{
    let found = group_from(current, rest, max);
    if rest.len() == 0 {
        seq![current].lemma_flatten_one_element();
        assert(current + rest == current);
        assert(texts(found) == seq![joined(current)]);
        assert(texts(found.drop_last()) == Seq::<Seq<char>>::empty());
    } else {
        let tail = rest.drop_first();
        if overflows(joined(current), rest[0], max) {
            let later = group_from(seq![rest[0]], tail, max);
            lemma_group_from(seq![rest[0]], tail, max);
            assert(found == seq![current] + later);
            assert(found.drop_first() == later);
            assert(seq![rest[0]] + tail == rest);
            assert(found.drop_last() == seq![current] + later.drop_last());
            assert(texts(found) == seq![joined(current)] + texts(later));
            assert(texts(found.drop_last()) == seq![joined(current)] + texts(later.drop_last()));
        } else {
            lemma_group_from(current.push(rest[0]), tail, max);
            lemma_joined_push(current, rest[0]);
            assert(current.push(rest[0]) + tail == current + rest);
        }
    }
}

/// Packing keeps every line, once, in its place: the groups are consecutive
/// runs of the lines, none of them empty, that together make up the lines,
/// and each datagram is the lines of its group with a newline between
/// neighbours. Every group goes out, but for a last one whose text is empty.
pub proof fn lemma_pack_keeps_lines(lines: Seq<Seq<char>>, max: nat)
    ensures
        groups(lines, max).flatten() == lines,
        forall|k: int|
            0 <= k < groups(lines, max).len() ==> (#[trigger] groups(lines, max)[k]).len() > 0,
        pack(lines, max) == texts(sent_groups(lines, max)),
{
    if lines.len() > 0 {
        lemma_group_from(seq![lines[0]], lines.drop_first(), max);
        assert(seq![lines[0]] + lines.drop_first() == lines);
    } else {
        assert(texts(groups(lines, max)) == Seq::<Seq<char>>::empty());
    }
}

/// Where the last line is not empty, every group goes out as a datagram.
pub proof fn lemma_all_groups_sent(lines: Seq<Seq<char>>, max: nat)
    requires
        lines.len() > 0 ==> lines.last().len() > 0,
    ensures
        sent_groups(lines, max) == groups(lines, max),
{
    if lines.len() > 0 {
        lemma_group_from(seq![lines[0]], lines.drop_first(), max);
        assert(seq![lines[0]] + lines.drop_first() == lines);
        lemma_joined_ends_with_last(groups(lines, max).last());
    }
}

/// What `lemma_pack_respects_limit` states, for a datagram that is being filled.
proof fn lemma_pack_from_fits(acc: Seq<char>, rest: Seq<Seq<char>>, max: nat)
    requires
        byte_len(acc) <= max,
        each_fits(rest, max),
    ensures
        each_fits(pack_from(acc, rest, max), max),
    decreases rest.len(),
{
    if rest.len() > 0 {
        let tail = rest.drop_first();
        lemma_rest_fits(rest, max);
        if overflows(acc, rest[0], max) {
            lemma_pack_from_fits(rest[0], tail, max);
        } else {
            lemma_byte_len_concat(acc, "\n"@);
            lemma_byte_len_concat(acc + "\n"@, rest[0]);
            lemma_newline_size();
            lemma_pack_from_fits(acc + "\n"@ + rest[0], tail, max);
        }
    }
}

/// Where every line fits alone within the limit, so does every datagram.
pub proof fn lemma_pack_respects_limit(lines: Seq<Seq<char>>, max: nat)
    requires
        each_fits(lines, max),
    ensures
        each_fits(pack(lines, max), max),
{
    if lines.len() > 0 {
        lemma_rest_fits(lines, max);
        lemma_pack_from_fits(lines[0], lines.drop_first(), max);
    }
}

/// Two lines that do not fit together, newline included, leave in two
/// datagrams of one line each.
pub proof fn lemma_two_lines_apart(first: Seq<char>, second: Seq<char>, max: nat)
    requires
        byte_len(first) + 1 + byte_len(second) > max,
        second.len() > 0,
    ensures
        pack(seq![first, second], max) == seq![first, second],
{
    let behind = seq![first, second].drop_first().drop_first();
    assert(pack_from(second, behind, max) == seq![second]);
}

/// Two lines that fit together, newline included, leave in one datagram.
pub proof fn lemma_two_lines_together(first: Seq<char>, second: Seq<char>, max: nat)
    requires
        byte_len(first) + 1 + byte_len(second) <= max,
    ensures
        pack(seq![first, second], max) == seq![first + "\n"@ + second],
{
    let behind = seq![first, second].drop_first().drop_first();
    let both = first + "\n"@ + second;
    reveal_strlit("\n");
    assert(pack_from(both, behind, max) == seq![both]);
}

/// What `lemma_datagrams_are_full` states, for a datagram that is being filled.
proof fn lemma_group_from_full(current: Seq<Seq<char>>, rest: Seq<Seq<char>>, max: nat)
    requires
        current.len() > 0,
        current.len() == 1 || byte_len(joined(current)) <= max,
    ensures
        group_from(current, rest, max).len() > 0,
        group_from(current, rest, max)[0].len() > 0,
        group_from(current, rest, max)[0][0] == current[0],
        forall|k: int|
            0 <= k < group_from(current, rest, max).len() ==> (#[trigger] group_from(
                current,
                rest,
                max,
            )[k]).len() == 1 || byte_len(joined(group_from(current, rest, max)[k])) <= max,
        forall|k: int|
            0 <= k < group_from(current, rest, max).len() - 1 ==> overflows(
                joined(#[trigger] group_from(current, rest, max)[k]),
                group_from(current, rest, max)[k + 1][0],
                max,
            ),
    decreases rest.len(),
{
    let found = group_from(current, rest, max);
    if rest.len() > 0 {
        let tail = rest.drop_first();
        if overflows(joined(current), rest[0], max) {
            let later = group_from(seq![rest[0]], tail, max);
            lemma_group_from_full(seq![rest[0]], tail, max);
            assert(found == seq![current] + later);
            assert forall|k: int| 0 <= k < found.len() implies (#[trigger] found[k]).len() == 1
                || byte_len(joined(found[k])) <= max by {
                if k > 0 {
                    assert(found[k] == later[k - 1]);
                }
            }
            assert forall|k: int| 0 <= k < found.len() - 1 implies overflows(
                joined(#[trigger] found[k]),
                found[k + 1][0],
                max,
            ) by {
                assert(found[k + 1] == later[k]);
                if k > 0 {
                    assert(found[k] == later[k - 1]);
                }
            }
        } else {
            lemma_joined_push(current, rest[0]);
            lemma_byte_len_concat(joined(current) + "\n"@, rest[0]);
            lemma_byte_len_concat(joined(current), "\n"@);
            lemma_newline_size();
            lemma_group_from_full(current.push(rest[0]), tail, max);
        }
    }
}

/// Every datagram is as full as it can be: a datagram of more than one line
/// fits within the limit, and the line that opens the next datagram would not
/// have fitted behind it.
pub proof fn lemma_datagrams_are_full(lines: Seq<Seq<char>>, max: nat)
    ensures
        forall|k: int|
            0 <= k < groups(lines, max).len() ==> (#[trigger] groups(lines, max)[k]).len() == 1
                || byte_len(joined(groups(lines, max)[k])) <= max,
        forall|k: int|
            0 <= k < groups(lines, max).len() - 1 ==> overflows(
                joined(#[trigger] groups(lines, max)[k]),
                groups(lines, max)[k + 1][0],
                max,
            ),
{
    if lines.len() > 0 {
        lemma_group_from_full(seq![lines[0]], lines.drop_first(), max);
    }
}

/// Where every line fits alone within the limit, the datagrams themselves are
/// a way of cutting the lines into groups that fit.
pub proof fn lemma_pack_is_a_fitting_split(lines: Seq<Seq<char>>, max: nat)
    requires
        no_empty_line(lines),
        each_fits(lines, max),
    ensures
        fitting_split(groups(lines, max), lines, max),
{
    lemma_pack_keeps_lines(lines, max);
    lemma_all_groups_sent(lines, max);
    lemma_pack_respects_limit(lines, max);
    let found = groups(lines, max);
    assert forall|k: int| 0 <= k < found.len() implies byte_len(joined(#[trigger] found[k]))
        <= max by {
        assert(pack(lines, max)[k] == joined(found[k]));
    }
}

/// Lines that fit into the datagram being filled are taken into it.
proof fn lemma_pack_from_absorbs(
    current: Seq<Seq<char>>,
    more: Seq<Seq<char>>,
    rest: Seq<Seq<char>>,
    max: nat,
)
    requires
        current.len() > 0,
        byte_len(joined(current + more)) <= max,
    ensures
        pack_from(joined(current), more + rest, max) == pack_from(
            joined(current + more),
            rest,
            max,
        ),
    decreases more.len(),
{
    if more.len() == 0 {
        assert(current + more == current);
        assert(more + rest == rest);
    } else {
        // The first of `more` fits, since all of `more` does.
        let longer = current.push(more[0]);
        assert(longer + more.drop_first() == current + more);
        assert((more + rest).drop_first() == more.drop_first() + rest);
        lemma_joined_push(current, more[0]);
        lemma_joined_grows(longer, more.drop_first());
        lemma_byte_len_concat(joined(current) + "\n"@, more[0]);
        lemma_byte_len_concat(joined(current), "\n"@);
        lemma_newline_size();
        lemma_pack_from_absorbs(longer, more.drop_first(), rest, max);
    }
}

/// A datagram that is fuller to begin with never gives fewer datagrams, and
/// however full it is, the count differs by one at most.
proof fn lemma_pack_from_count(acc1: Seq<char>, acc2: Seq<char>, rest: Seq<Seq<char>>, max: nat)
    requires
        acc1.len() > 0,
        acc2.len() > 0,
        no_empty_line(rest),
    ensures
        pack_from(acc1, rest, max).len() >= 1,
        pack_from(acc1, rest, max).len() <= 1 + pack_from(acc2, rest, max).len(),
        byte_len(acc1) <= byte_len(acc2) ==> pack_from(acc1, rest, max).len() <= pack_from(
            acc2,
            rest,
            max,
        ).len(),
    decreases rest.len(),
{
    if rest.len() > 0 {
        // Whichever of the two takes the line and whichever closes, what
        // they go on with is covered by one of the three cases below.
        let line = rest[0];
        let tail = rest.drop_first();
        let longer1 = acc1 + "\n"@ + line;
        let longer2 = acc2 + "\n"@ + line;
        lemma_rest_has_no_empty_line(rest);
        lemma_byte_len_concat(acc1 + "\n"@, line);
        lemma_byte_len_concat(acc1, "\n"@);
        lemma_byte_len_concat(acc2 + "\n"@, line);
        lemma_byte_len_concat(acc2, "\n"@);
        lemma_pack_from_count(line, longer2, tail, max);
        lemma_pack_from_count(longer1, line, tail, max);
        lemma_pack_from_count(longer1, longer2, tail, max);
    }
}

/// Packing uses as few datagrams as the order of the lines and the size limit
/// allow: every way of cutting the lines into consecutive groups that fit
/// within the limit has at least as many groups as there are datagrams.
pub proof fn lemma_pack_is_shortest(
    lines: Seq<Seq<char>>,
    max: nat,
    other: Seq<Seq<Seq<char>>>,
)
    requires
        no_empty_line(lines),
        fitting_split(other, lines, max),
    ensures
        pack(lines, max).len() <= other.len(),
    decreases other.len(),
{
    if lines.len() > 0 {
        // Packing takes at least the whole first group of `other` into its
        // first datagram.
        let first = other[0];
        let later = other.drop_first();
        let behind = later.flatten();
        assert(lines == first + behind);
        assert(lines.drop_first() == first.drop_first() + behind);
        assert(seq![first[0]] + first.drop_first() == first);
        lemma_pack_from_absorbs(seq![first[0]], first.drop_first(), behind, max);
        assert(pack(lines, max) == pack_from(joined(first), behind, max));
        assert(no_empty_line(first)) by {
            assert forall|i: int| 0 <= i < first.len() implies (#[trigger] first[i]).len()
                > 0 by {
                assert(first[i] == lines[i]);
            }
        }
        lemma_joined_nonempty(first);
        if behind.len() > 0 {
            assert(no_empty_line(behind)) by {
                assert forall|i: int| 0 <= i < behind.len() implies (#[trigger] behind[i]).len()
                    > 0 by {
                    assert(behind[i] == lines[first.len() + i]);
                }
            }
            assert(fitting_split(later, behind, max)) by {
                assert forall|k: int| 0 <= k < later.len() implies (#[trigger] later[k]).len() > 0
                    && byte_len(joined(later[k])) <= max by {
                    assert(later[k] == other[k + 1]);
                }
            }
            // The groups behind the first are no fewer than the datagrams
            // of their lines, and to go on from the first group costs at
            // most one datagram more than that.
            lemma_pack_is_shortest(behind, max, later);
            lemma_rest_has_no_empty_line(behind);
            lemma_pack_from_count(
                joined(first) + "\n"@ + behind[0],
                behind[0],
                behind.drop_first(),
                max,
            );
        }
    }
}

} // verus!
