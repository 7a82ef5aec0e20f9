//! The integer ASCII mesh formats: cell connectivity files and
//! particle-to-cell assignment files. Reading and writing the files is left
//! to the caller; these functions turn file contents into values and back.

use vstd::prelude::*;
use vstd::string::StringExecFns;
use crate::text::{
    decimal, is_white_space, law_decimal_reads_back, lemma_decimal_digits, lemma_digit_is_plain,
    lemma_lines_of_append, lemma_lines_of_line, lemma_words_of_pair, lines_of, pair_line,
    parse_index, parse_index_spec, text_lines, text_words, words_of,
};
use crate::types::Index;

verus! {

/// The numbers among `words`, in order; words that are not numbers are
/// skipped.
pub open spec fn parsed_ids(words: Seq<Seq<char>>) -> Seq<Index>
    decreases words.len(),
{
    if words.len() == 0 {
        Seq::empty()
    } else {
        let prev = parsed_ids(words.drop_last());
        match parse_index_spec(words.last()) {
            Some(v) => prev.push(v),
            None => prev,
        }
    }
}

/// The connectivity a cell file holds: the first line (the count) is
/// skipped, and each later line of at least two words gives the node ids
/// after its first word (the cell id).
pub open spec fn cells_from_lines(lines: Seq<Seq<char>>) -> Seq<Seq<Index>>
    decreases lines.len(),
{
    if lines.len() <= 1 {
        Seq::empty()
    } else {
        let prev = cells_from_lines(lines.drop_last());
        let w = words_of(lines.last());
        if w.len() >= 2 {
            prev.push(parsed_ids(w.drop_first()))
        } else {
            prev
        }
    }
}

/// The number a word gives, or 0 when it is not a number.
pub open spec fn index_or_zero(word: Seq<char>) -> Index {
    match parse_index_spec(word) {
        Some(v) => v,
        None => 0,
    }
}

/// The particle-cell pairs an assignment file holds: each line of at
/// least two words gives the numbers of its first two words (0 for a word
/// that is not a number).
pub open spec fn pairs_from_lines(lines: Seq<Seq<char>>) -> Seq<Seq<Index>>
    decreases lines.len(),
{
    if lines.len() == 0 {
        Seq::empty()
    } else {
        let prev = pairs_from_lines(lines.drop_last());
        let w = words_of(lines.last());
        if w.len() >= 2 {
            prev.push(seq![index_or_zero(w[0]), index_or_zero(w[1])])
        } else {
            prev
        }
    }
}

/// The text of an assignment file: one line per pair, the two numbers in
/// base 10 separated by a tab.
pub open spec fn pairs_text(pairs: Seq<Seq<Index>>) -> Seq<char>
    decreases pairs.len(),
{
    if pairs.len() == 0 {
        Seq::empty()
    } else {
        let p = pairs.last();
        pairs_text(pairs.drop_last()) + decimal(p[0] as nat) + seq!['\t'] + decimal(p[1] as nat) + seq!['\n']
    }
}

/// The line an assignment file holds for a pair, without its `\n`.
pub open spec fn pair_line_text(p: Seq<Index>) -> Seq<char> {
    decimal(p[0] as nat) + seq!['\t'] + decimal(p[1] as nat)
}

proof fn lemma_pair_line(p: Seq<Index>)
    requires
        p.len() == 2,
    ensures
        forall|i: int| 0 <= i < pair_line_text(p).len() ==> pair_line_text(p)[i] != '\n',
        pair_line_text(p).last() != '\r',
        words_of(pair_line_text(p)) == seq![decimal(p[0] as nat), decimal(p[1] as nat)],
{
    let a = decimal(p[0] as nat);
    let b = decimal(p[1] as nat);
    lemma_decimal_digits(p[0] as nat);
    lemma_decimal_digits(p[1] as nat);
    assert forall|i: int| 0 <= i < a.len() implies !is_white_space(#[trigger] a[i]) && a[i] != '\n' by {
        lemma_digit_is_plain(a[i]);
    }
    assert forall|i: int| 0 <= i < b.len() implies !is_white_space(#[trigger] b[i]) && b[i] != '\n' by {
        lemma_digit_is_plain(b[i]);
    }
    let l = pair_line_text(p);
    assert forall|i: int| 0 <= i < l.len() implies l[i] != '\n' by {
        if i < a.len() {
            assert(l[i] == a[i]);
        } else if i == a.len() {
            assert(l[i] == '\t');
        } else {
            assert(l[i] == b[i - a.len() - 1]);
        }
    }
    assert(l.last() == b.last());
    lemma_digit_is_plain(b.last());
    lemma_words_of_pair(a, b);
}

/// Particle-cell pairs written as text by `particles_cells_text` read back,
/// by `parse_particles_cells`, as the same pairs.
pub proof fn law_particles_cells_read_back(pairs: Seq<Seq<Index>>)
    requires
        forall|i: int| 0 <= i < pairs.len() ==> #[trigger] pairs[i].len() == 2,
    ensures
        pairs_from_lines(lines_of(pairs_text(pairs))) == pairs,
    decreases pairs.len(),
{
    if pairs.len() == 0 {
        assert(lines_of(pairs_text(pairs)) =~= Seq::<Seq<char>>::empty());
        assert(pairs =~= Seq::<Seq<Index>>::empty());
    } else {
        let rest = pairs.drop_last();
        let p = pairs.last();
        assert(p.len() == 2);
        assert forall|i: int| 0 <= i < rest.len() implies #[trigger] rest[i].len() == 2 by {
            assert(rest[i] == pairs[i]);
        }
        law_particles_cells_read_back(rest);
        let head = pairs_text(rest);
        let line = pair_line_text(p);
        assert(pairs_text(pairs) =~= head + (line + seq!['\n']));
        if rest.len() > 0 {
            assert(head.last() == '\n');
        }
        lemma_lines_of_append(head, line + seq!['\n']);
        lemma_pair_line(p);
        lemma_lines_of_line(line);
        let ls = lines_of(pairs_text(pairs));
        assert(ls =~= lines_of(head).push(line));
        assert(ls.drop_last() =~= lines_of(head));
        law_decimal_reads_back(p[0]);
        law_decimal_reads_back(p[1]);
        assert(index_or_zero(decimal(p[0] as nat)) == p[0]);
        assert(index_or_zero(decimal(p[1] as nat)) == p[1]);
        assert(p =~= seq![p[0], p[1]]);
        assert(pairs =~= rest.push(p));
    }
}

/// Words that all read as numbers give exactly their values, in order,
/// whatever the values (0 included).
pub proof fn law_numeric_words_are_all_kept(words: Seq<Seq<char>>)
    requires
        forall|i: int| 0 <= i < words.len() ==> (#[trigger] parse_index_spec(words[i])) is Some,
    ensures
        parsed_ids(words).len() == words.len(),
        forall|i: int| 0 <= i < words.len() ==> Some(#[trigger] parsed_ids(words)[i]) == parse_index_spec(words[i]),
    decreases words.len(),
{
    if words.len() > 0 {
        let rest = words.drop_last();
        assert forall|i: int| 0 <= i < rest.len() implies (#[trigger] parse_index_spec(rest[i])) is Some by {
            assert(rest[i] == words[i]);
            assert(parse_index_spec(words[i]) is Some);
        }
        law_numeric_words_are_all_kept(rest);
        assert(parse_index_spec(words[words.len() - 1]) is Some);
        assert forall|i: int| 0 <= i < words.len() implies Some(#[trigger] parsed_ids(words)[i]) == parse_index_spec(words[i]) by {
            if i < rest.len() {
                assert(rest[i] == words[i]);
                assert(Some(parsed_ids(rest)[i]) == parse_index_spec(rest[i]));
            }
        }
    }
}

/// Ids written in base 10 read back as the same ids, in order: a cell line
/// lists all of its node ids, 0 included.
pub proof fn law_decimal_ids_read_back(ids: Seq<Index>)
    ensures
        parsed_ids(ids.map_values(|v: Index| decimal(v as nat))) == ids,
{
    let words = ids.map_values(|v: Index| decimal(v as nat));
    assert forall|i: int| 0 <= i < words.len() implies (#[trigger] parse_index_spec(words[i])) is Some by {
        law_decimal_reads_back(ids[i]);
    }
    law_numeric_words_are_all_kept(words);
    assert forall|i: int| 0 <= i < ids.len() implies parsed_ids(words)[i] == ids[i] by {
        law_decimal_reads_back(ids[i]);
        assert(Some(parsed_ids(words)[i]) == parse_index_spec(words[i]));
    }
    assert(parsed_ids(words) =~= ids);
}

/// The numbers among `words`, in order.
fn parse_ids(words: &Vec<&str>, from: usize) -> (r: Vec<Index>)
    requires
        from <= words@.len(),
    ensures
        r@ == parsed_ids(words@.map_values(|w: &str| w@).skip(from as int)),
{
    let ghost ws = words@.map_values(|w: &str| w@).skip(from as int);
    let mut ids: Vec<Index> = Vec::new();
    let mut i = from;
    while i < words.len()
        invariant
            from <= i <= words@.len(),
            ws == words@.map_values(|w: &str| w@).skip(from as int),
            ids@ == parsed_ids(ws.take(i - from)),
        decreases words@.len() - i,
    {
        proof {
            assert(ws.take(i - from + 1).drop_last() =~= ws.take(i - from));
            assert(ws.take(i - from + 1).last() == words@[i as int]@);
        }
        match parse_index(words[i]) {
            Some(v) => ids.push(v),
            None => {},
        }
        i = i + 1;
    }
    assert(ws.take(i - from) =~= ws);
    ids
}

/// Reads the cell connectivity from the contents of a cell file: the first
/// line (the number of cells) is skipped, and each later line of at least
/// two words gives the node ids that follow its first word (the cell id);
/// words that are not numbers are skipped.
pub fn parse_mesh_cells(contents: &str) -> (r: Vec<Vec<Index>>)
    ensures
        r@.map_values(|c: Vec<Index>| c@) == cells_from_lines(lines_of(contents@)),
{
    let lines = text_lines(contents);
    let ghost ls = lines@.map_values(|l: &str| l@);
    let mut cells: Vec<Vec<Index>> = Vec::new();
    let mut i: usize = 0;
    while i < lines.len()
        invariant
            i <= lines@.len(),
            ls == lines@.map_values(|l: &str| l@),
            ls == lines_of(contents@),
            cells@.map_values(|c: Vec<Index>| c@) == cells_from_lines(ls.take(i as int)),
        decreases lines@.len() - i,
    {
        let ghost before = cells@;
        proof {
            assert(ls.take(i as int + 1).drop_last() =~= ls.take(i as int));
            assert(ls.take(i as int + 1).last() == lines@[i as int]@);
        }
        if i > 0 {
            let words = text_words(lines[i]);
            if words.len() >= 2 {
                let ids = parse_ids(&words, 1);
                proof {
                    assert(words@.map_values(|w: &str| w@).skip(1) =~= words_of(lines@[i as int]@).drop_first());
                }
                cells.push(ids);
                proof {
                    assert(cells@.map_values(|c: Vec<Index>| c@) =~= before.map_values(|c: Vec<Index>| c@).push(ids@));
                }
            }
        }
        i = i + 1;
    }
    assert(ls.take(i as int) =~= ls);
    cells
}

/// The number a word gives, or 0 when it is not a number.
fn index_or_default(word: &str) -> (r: Index)
    ensures
        r == index_or_zero(word@),
{
    match parse_index(word) {
        Some(v) => v,
        None => 0,
    }
}

/// Reads particle-cell pairs from the contents of an assignment file: each
/// line of at least two words gives the numbers of its first two words
/// (particle id, cell id), 0 standing for a word that is not a number.
pub fn parse_particles_cells(contents: &str) -> (r: Vec<[Index; 2]>)
    ensures
        r@.map_values(|p: [Index; 2]| p@) == pairs_from_lines(lines_of(contents@)),
{
    let lines = text_lines(contents);
    let ghost ls = lines@.map_values(|l: &str| l@);
    let mut pairs: Vec<[Index; 2]> = Vec::new();
    let mut i: usize = 0;
    while i < lines.len()
        invariant
            i <= lines@.len(),
            ls == lines@.map_values(|l: &str| l@),
            ls == lines_of(contents@),
            pairs@.map_values(|p: [Index; 2]| p@) == pairs_from_lines(ls.take(i as int)),
        decreases lines@.len() - i,
    {
        let ghost before = pairs@;
        proof {
            assert(ls.take(i as int + 1).drop_last() =~= ls.take(i as int));
            assert(ls.take(i as int + 1).last() == lines@[i as int]@);
        }
        let words = text_words(lines[i]);
        if words.len() >= 2 {
            let pid = index_or_default(words[0]);
            let cid = index_or_default(words[1]);
            let pair = [pid, cid];
            pairs.push(pair);
            proof {
                let ws = words_of(lines@[i as int]@);
                assert(ws[0] == words@[0]@ && ws[1] == words@[1]@);
                assert(pair@ =~= seq![index_or_zero(ws[0]), index_or_zero(ws[1])]);
                assert(pairs@.map_values(|p: [Index; 2]| p@) =~= before.map_values(|p: [Index; 2]| p@).push(pair@));
            }
        }
        i = i + 1;
    }
    assert(ls.take(i as int) =~= ls);
    pairs
}

/// The text of an assignment file for `pairs`: one line per pair, particle
/// id and cell id in base 10 separated by a tab.
pub fn particles_cells_text(pairs: &[[Index; 2]]) -> (r: String)
    ensures
        r@ == pairs_text(pairs@.map_values(|p: [Index; 2]| p@)),
{
    let ghost ps = pairs@.map_values(|p: [Index; 2]| p@);
    let mut content = String::new();
    let mut i: usize = 0;
    while i < pairs.len()
        invariant
            i <= pairs@.len(),
            ps == pairs@.map_values(|p: [Index; 2]| p@),
            content@ == pairs_text(ps.take(i as int)),
        decreases pairs@.len() - i,
    {
        let pair = pairs[i];
        let line = pair_line(pair[0], pair[1]);
        content.append(line.as_str());
        proof {
            assert(ps.take(i as int + 1).drop_last() =~= ps.take(i as int));
            assert(ps.take(i as int + 1).last() == pair@);
            assert(content@ =~= pairs_text(ps.take(i as int + 1)));
        }
        i = i + 1;
    }
    assert(ps.take(i as int) =~= ps);
    content
}

} // verus!
