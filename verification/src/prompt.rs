//! What is computed from the user's answers: a line without its line ending,
//! and the tags of a comma-separated list.
use crate::text::{push_char, trim, trim_seq};
use vstd::prelude::*;

verus! {

/// `s` without the line feeds and carriage returns at its end.
pub open spec fn strip_line_ending_seq(s: Seq<char>) -> Seq<char>
    decreases s.len(),
{
    if s.len() > 0 && (s.last() == '\n' || s.last() == '\r') {
        strip_line_ending_seq(s.drop_last())
    } else {
        s
    }
}

/// A line as read, without the `\n` and `\r` characters that end it.
pub fn strip_line_ending(line: &str) -> (r: String)
    ensures
        r@ == strip_line_ending_seq(line@),
{
    let mut e = line.unicode_len();
    assert(line@.subrange(0, e as int) =~= line@);
    while e > 0 && (line.get_char(e - 1) == '\n' || line.get_char(e - 1) == '\r')
        invariant
            e <= line@.len(),
            strip_line_ending_seq(line@) == strip_line_ending_seq(line@.subrange(0, e as int)),
        decreases e,
    {
        proof {
            let p = line@.subrange(0, e as int);
            assert(p.drop_last() =~= line@.subrange(0, e - 1));
        }
        e = e - 1;
    }
    line.substring_char(0, e).to_owned()
}

/// The pieces of `s` between commas: `"a,b"` gives `a` and `b`, `""` one empty
/// piece, `"a,"` `a` and an empty piece.
pub open spec fn split_commas(s: Seq<char>) -> Seq<Seq<char>>
    decreases s.len(),
{
    if s.len() == 0 {
        seq![Seq::empty()]
    } else {
        let p = split_commas(s.drop_last());
        if s.last() == ',' {
            p.push(Seq::empty())
        } else {
            p.update(p.len() - 1, p.last().push(s.last()))
        }
    }
}

proof fn lemma_split_nonempty(s: Seq<char>)
    ensures
        split_commas(s).len() >= 1,
    decreases s.len(),
{
    if s.len() > 0 {
        lemma_split_nonempty(s.drop_last());
    }
}

/// The trimmed pieces that are not empty.
pub open spec fn tags_of(pieces: Seq<Seq<char>>) -> Seq<Seq<char>>
    decreases pieces.len(),
{
    if pieces.len() == 0 {
        Seq::empty()
    } else {
        let t = trim_seq(pieces.last());
        if t.len() == 0 {
            tags_of(pieces.drop_last())
        } else {
            tags_of(pieces.drop_last()).push(t)
        }
    }
}

/// The tags of a comma-separated list: each piece trimmed of white space, empty
/// ones left out, in their order.
pub fn parse_tags(raw: &str) -> (r: Vec<String>)
    ensures
        crate::text::string_views(r@) == tags_of(split_commas(raw@)),
{
    let n = raw.unicode_len();
    let mut pieces: Vec<String> = Vec::new();
    let mut current = String::new();
    let mut i: usize = 0;
    proof {
        assert(raw@.subrange(0, 0) =~= Seq::<char>::empty());
    }
    while i < n
        invariant
            n == raw@.len(),
            i <= n,
            split_commas(raw@.subrange(0, i as int)) == crate::text::string_views(pieces@).push(current@),
        decreases n - i,
    {
        let c = raw.get_char(i);
        proof {
            let p = raw@.subrange(0, i + 1);
            assert(p.drop_last() =~= raw@.subrange(0, i as int));
            assert(p.last() == c);
        }
        if c == ',' {
            let ghost before = pieces@;
            let done = current;
            pieces.push(done);
            current = String::new();
            proof {
                assert(crate::text::string_views(pieces@) =~= crate::text::string_views(before).push(done@));
                assert(crate::text::string_views(pieces@).push(current@) =~= crate::text::string_views(before).push(done@).push(Seq::<char>::empty()));
            }
        } else {
            let ghost before = current@;
            push_char(&mut current, c);
            proof {
                let sv = crate::text::string_views(pieces@);
                assert(sv.push(current@) =~= sv.push(before).update(sv.len() as int, sv.push(before).last().push(c)));
            }
        }
        i = i + 1;
    }
    pieces.push(current);
    proof {
        assert(raw@.subrange(0, n as int) =~= raw@);
    }
    let ghost all = crate::text::string_views(pieces@);
    assert(all == split_commas(raw@));
    let mut tags: Vec<String> = Vec::new();
    let mut k: usize = 0;
    while k < pieces.len()
        invariant
            k <= pieces@.len(),
            all == crate::text::string_views(pieces@),
            crate::text::string_views(tags@) == tags_of(all.subrange(0, k as int)),
        decreases pieces@.len() - k,
    {
        let t = trim(pieces[k].as_str());
        proof {
            let p = all.subrange(0, k + 1);
            assert(p.drop_last() =~= all.subrange(0, k as int));
            assert(p.last() == pieces@[k as int]@);
        }
        if t.unicode_len() > 0 {
            let ghost before = tags@;
            tags.push(t);
            proof {
                assert(crate::text::string_views(tags@) =~= crate::text::string_views(before).push(t@));
            }
        }
        k = k + 1;
    }
    proof {
        assert(all.subrange(0, all.len() as int) =~= all);
    }
    tags
}

} // verus!
