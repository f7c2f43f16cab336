//! The entries of a managed `/etc/hosts` block.

use vstd::prelude::*;

use crate::commands::util::{all_dns_names, are_dns_names, invalid, refused};
use crate::ipv4::{is_loose_quad, lemma_quad_starts_with_digit, valid_ipv4};
use crate::registry::{CommandError, CommandErrorView};
use crate::split::{
    join, joined, lemma_joined_chars, pieces, separates, split, split_undoes_join, split_words,
    unbroken, words, words_are_unbroken, words_of_joined_words, Separator,
};
use crate::text::{is_digit, texts};

verus! {

/// The words of each line that has any, in order.
pub open spec fn filled_lines(lines: Seq<Seq<char>>) -> Seq<Seq<Seq<char>>>
    decreases lines.len(),
{
    if lines.len() == 0 {
        Seq::empty()
    } else {
        let before = filled_lines(lines.drop_last());
        if words(lines.last()).len() > 0 {
            before.push(words(lines.last()))
        } else {
            before
        }
    }
}

/// The entries that a text of one `<ipv4> <name> [<name> ...]` per line holds,
/// each as its words.
pub open spec fn host_entries(raw: Seq<char>) -> Seq<Seq<Seq<char>>> {
    filled_lines(pieces(raw, Separator::Char('\n')))
}

/// What is wrong with one entry.
pub open spec fn entry_fault(fields: Seq<Seq<char>>) -> Option<Seq<char>> {
    if !is_loose_quad(fields[0]) {
        Some("each line must start with an IPv4 address"@)
    } else if fields.len() == 1 {
        Some("each line must name at least one host"@)
    } else if !are_dns_names(fields.skip(1)) {
        Some("host names must be valid DNS names"@)
    } else {
        None
    }
}

/// What is wrong with the first entry that is not right.
pub open spec fn first_fault(entries: Seq<Seq<Seq<char>>>) -> Option<Seq<char>>
    decreases entries.len(),
{
    if entries.len() == 0 {
        None
    } else if first_fault(entries.drop_last()) is Some {
        first_fault(entries.drop_last())
    } else {
        entry_fault(entries.last())
    }
}

/// Why the entries are refused, if they are.
pub open spec fn hosts_refusal(raw: Seq<char>) -> Option<CommandErrorView> {
    match first_fault(host_entries(raw)) {
        Some(reason) => Some(refused("entries"@, reason)),
        None => if host_entries(raw).len() == 0 {
            Some(refused("entries"@, "must contain at least one entry"@))
        } else {
            None
        },
    }
}

/// Entries as lines, with one space between the words of each.
pub open spec fn entry_lines(entries: Seq<Seq<Seq<char>>>) -> Seq<Seq<char>> {
    entries.map_values(|fields: Seq<Seq<char>>| joined(fields, " "@))
}

/// The block that the entries make: one line each.
pub open spec fn hosts_block(raw: Seq<char>) -> Seq<char> {
    joined(entry_lines(host_entries(raw)), "\n"@)
}

/// The lines of the managed block, or why the entries are refused.
pub fn hosts_lines(raw: &str) -> (r: Result<Vec<String>, CommandError>)
    ensures
        match r {
            Ok(lines) => hosts_refusal(raw@) is None && texts(lines@) == entry_lines(
                host_entries(raw@),
            ),
            Err(error) => hosts_refusal(raw@) == Some(error@),
        },
{
    let lines = split(raw, Separator::Char('\n'));
    let ghost all = pieces(raw@, Separator::Char('\n'));
    let mut out: Vec<String> = Vec::new();
    let mut i: usize = 0;
    while i < lines.len()
        invariant
            i <= lines@.len(),
            texts(lines@) == all,
            texts(out@) == entry_lines(filled_lines(all.take(i as int))),
            first_fault(filled_lines(all.take(i as int))) is None,
            all == pieces(raw@, Separator::Char('\n')),
        decreases lines.len() - i,
    {
        let fields = split_words(lines[i].as_str());
        let ghost line = texts(fields@);
        let ghost before = filled_lines(all.take(i as int));
        let ghost now = filled_lines(all.take(i + 1));
        let ghost written = texts(out@);
        assert(all[i as int] == lines@[i as int]@);
        assert(all.take(i + 1).drop_last() =~= all.take(i as int));
        assert(line.len() == fields@.len());
        if fields.len() > 0 {
            assert(now == before.push(line));
            assert(now.drop_last() =~= before);
            assert(line[0] == fields@[0]@);
            if !valid_ipv4(fields[0].as_str()) {
                proof {
                    lemma_fault_stays(all, i + 1);
                }
                return Err(invalid("entries", "each line must start with an IPv4 address"));
            }
            if fields.len() == 1 {
                proof {
                    lemma_fault_stays(all, i + 1);
                }
                return Err(invalid("entries", "each line must name at least one host"));
            }
            if !all_dns_names(&fields, 1) {
                proof {
                    lemma_fault_stays(all, i + 1);
                }
                return Err(invalid("entries", "host names must be valid DNS names"));
            }
            let text = join(&fields, " ");
            let ghost joint = text@;
            out.push(text);
            assert(texts(out@) =~= written.push(joint));
            assert(entry_lines(now) =~= entry_lines(before).push(joint));
        }
        i += 1;
    }
    assert(all.take(all.len() as int) =~= all);
    assert(texts(out@).len() == out@.len());
    if out.len() == 0 {
        return Err(invalid("entries", "must contain at least one entry"));
    }
    Ok(out)
}

/// The fault among the first `n` lines is the fault of all.
proof fn lemma_fault_stays(lines: Seq<Seq<char>>, n: int)
    requires
        0 <= n <= lines.len(),
        first_fault(filled_lines(lines.take(n))) is Some,
    ensures
        first_fault(filled_lines(lines)) == first_fault(filled_lines(lines.take(n))),
    decreases lines.len() - n,
{
    if n == lines.len() {
        assert(lines.take(n) =~= lines);
    } else {
        assert(lines.take(n + 1).drop_last() =~= lines.take(n));
        let before = filled_lines(lines.take(n));
        let line = words(lines.take(n + 1).last());
        if line.len() > 0 {
            assert(before.push(line).drop_last() =~= before);
        }
        lemma_fault_stays(lines, n + 1);
    }
}

/// Parse the `entries` parameter, one `<ipv4> <name> [<name> ...]` per line,
/// into the block to write: one line per entry, single spaces, nothing else.
///
/// These values come from another machine's configuration and `/etc/hosts`
/// outranks DNS for every name it mentions, so each line is checked here.
pub fn parse_hosts_entries(raw: &str) -> (r: Result<String, CommandError>)
    ensures
        match r {
            Ok(block) => hosts_refusal(raw@) is None && block@ == hosts_block(raw@),
            Err(error) => hosts_refusal(raw@) == Some(error@),
        },
{
    let lines = hosts_lines(raw)?;
    Ok(join(&lines, "\n"))
}

/// There is nothing wrong exactly where there is nothing wrong with any entry.
pub proof fn no_fault_is_no_fault_anywhere(entries: Seq<Seq<Seq<char>>>)
    ensures
        first_fault(entries) is None <==> forall|i: int|
            0 <= i < entries.len() ==> entry_fault(#[trigger] entries[i]) is None,
    decreases entries.len(),
{
    if entries.len() > 0 {
        let rest = entries.drop_last();
        no_fault_is_no_fault_anywhere(rest);
        if first_fault(entries) is None {
            assert forall|i: int| 0 <= i < entries.len() implies entry_fault(
                #[trigger] entries[i],
            ) is None by {
                if i < rest.len() {
                    assert(rest[i] == entries[i]);
                }
            }
        } else if forall|i: int|
            0 <= i < entries.len() ==> entry_fault(#[trigger] entries[i]) is None {
            assert forall|i: int| 0 <= i < rest.len() implies entry_fault(
                #[trigger] rest[i],
            ) is None by {
                assert(rest[i] == entries[i]);
            }
            assert(entry_fault(entries[entries.len() - 1]) is None);
        }
    }
}

/// The words of an entry are not empty and have no whitespace in them, and an
/// entry has at least one.
pub open spec fn is_entry(fields: Seq<Seq<char>>) -> bool {
    &&& fields.len() > 0
    &&& forall|i: int|
        0 <= i < fields.len() ==> (#[trigger] fields[i]).len() > 0 && unbroken(
            fields[i],
            Separator::Whitespace,
        )
}

proof fn lemma_filled_lines_are_entries(lines: Seq<Seq<char>>)
    ensures
        forall|i: int|
            0 <= i < filled_lines(lines).len() ==> is_entry(#[trigger] filled_lines(lines)[i]),
    decreases lines.len(),
{
    if lines.len() > 0 {
        let before = filled_lines(lines.drop_last());
        lemma_filled_lines_are_entries(lines.drop_last());
        words_are_unbroken(lines.last());
        assert forall|i: int| 0 <= i < filled_lines(lines).len() implies is_entry(
            #[trigger] filled_lines(lines)[i],
        ) by {
            if i < before.len() {
                assert(is_entry(before[i]));
            } else {
                assert(is_entry(words(lines.last())));
            }
        }
    }
}

proof fn lemma_entry_line(fields: Seq<Seq<char>>)
    requires
        is_entry(fields),
    ensures
        words(joined(fields, " "@)) == fields,
        unbroken(joined(fields, " "@), Separator::Char('\n')),
{
    words_of_joined_words(fields);
    reveal_strlit(" ");
    assert(" "@ =~= seq![' ']);
    let newline = Separator::Char('\n');
    assert forall|i: int| 0 <= i < fields.len() implies unbroken(#[trigger] fields[i], newline) by {
        assert(unbroken(fields[i], Separator::Whitespace));
        assert forall|k: int| 0 <= k < fields[i].len() implies !separates(
            newline,
            #[trigger] fields[i][k],
        ) by {
            assert(!separates(Separator::Whitespace, fields[i][k]));
        }
    }
    lemma_joined_chars(fields, ' ', newline);
}

proof fn lemma_entry_lines_read_back(entries: Seq<Seq<Seq<char>>>)
    requires
        forall|i: int| 0 <= i < entries.len() ==> is_entry(#[trigger] entries[i]),
    ensures
        filled_lines(entry_lines(entries)) == entries,
    decreases entries.len(),
{
    if entries.len() > 0 {
        let rest = entries.drop_last();
        assert forall|i: int| 0 <= i < rest.len() implies is_entry(#[trigger] rest[i]) by {
            assert(rest[i] == entries[i]);
        }
        lemma_entry_lines_read_back(rest);
        assert(entry_lines(entries).drop_last() =~= entry_lines(rest));
        assert(is_entry(entries[entries.len() - 1]));
        lemma_entry_line(entries.last());
        assert(rest.push(entries.last()) =~= entries);
    }
}

/// The block says what the text said: reading the block of an accepted text gives
/// the same entries, one line each. So the block of an accepted text is accepted
/// too, and is its own block.
pub proof fn block_reads_back(raw: Seq<char>)
    requires
        hosts_refusal(raw) is None,
    ensures
        host_entries(hosts_block(raw)) == host_entries(raw),
        pieces(hosts_block(raw), Separator::Char('\n')) == entry_lines(host_entries(raw)),
        hosts_refusal(hosts_block(raw)) is None,
        hosts_block(hosts_block(raw)) == hosts_block(raw),
{
    let entries = host_entries(raw);
    lemma_filled_lines_are_entries(pieces(raw, Separator::Char('\n')));
    let lines = entry_lines(entries);
    assert forall|i: int| 0 <= i < lines.len() implies unbroken(
        #[trigger] lines[i],
        Separator::Char('\n'),
    ) by {
        lemma_entry_line(entries[i]);
    }
    reveal_strlit("\n");
    assert("\n"@ =~= seq!['\n']);
    split_undoes_join(lines, '\n', Separator::Char('\n'));
    lemma_entry_lines_read_back(entries);
}

/// Every line of the block of an accepted text starts with a digit: with the
/// first of the address. So no line of it can be taken for a line that starts
/// otherwise, such as the two around the block.
pub proof fn block_lines_start_with_digits(raw: Seq<char>)
    requires
        hosts_refusal(raw) is None,
    ensures
        forall|i: int|
            0 <= i < entry_lines(host_entries(raw)).len() ==> {
                let line = #[trigger] entry_lines(host_entries(raw))[i];
                line.len() > 0 && is_digit(line.first())
            },
{
    let entries = host_entries(raw);
    lemma_filled_lines_are_entries(pieces(raw, Separator::Char('\n')));
    no_fault_is_no_fault_anywhere(entries);
    assert forall|i: int| 0 <= i < entry_lines(entries).len() implies {
        let line = #[trigger] entry_lines(entries)[i];
        line.len() > 0 && is_digit(line.first())
    } by {
        let fields = entries[i];
        assert(entry_fault(fields) is None);
        lemma_quad_starts_with_digit(fields[0]);
        lemma_joined_starts(fields);
    }
}

proof fn lemma_joined_starts(fields: Seq<Seq<char>>)
    requires
        fields.len() > 0,
        fields[0].len() > 0,
    ensures
        joined(fields, " "@).len() > 0,
        joined(fields, " "@).first() == fields[0].first(),
    decreases fields.len(),
{
    if fields.len() > 1 {
        assert(fields.drop_last()[0] == fields[0]);
        lemma_joined_starts(fields.drop_last());
    }
}

} // verus!
