//! Splitting texts into fields.

use vstd::prelude::*;

verus! {

pub open spec fn is_ascii_digit(c: char) -> bool {
    '0' <= c && c <= '9'
}

/// The fields of `s` between occurrences of `sep`, as `str::split` yields them.
pub open spec fn split_fields(s: Seq<char>, sep: char) -> Seq<Seq<char>>
    decreases s.len(),
{
    if s.len() == 0 {
        seq![Seq::empty()]
    } else {
        let fields = split_fields(s.drop_last(), sep);
        if s.last() == sep {
            fields.push(Seq::empty())
        } else {
            fields.update(fields.len() - 1, fields.last().push(s.last()))
        }
    }
}

/// There is always at least one field.
pub proof fn lemma_split_fields_nonempty(s: Seq<char>, sep: char)
    ensures
        split_fields(s, sep).len() >= 1,
    decreases s.len(),
{
    if s.len() > 0 {
        lemma_split_fields_nonempty(s.drop_last(), sep);
    }
}


/// A text without the separator is a single field.
pub proof fn lemma_split_fields_single(s: Seq<char>, sep: char)
    requires
        forall|i: int| 0 <= i < s.len() ==> s[i] != sep,
    ensures
        split_fields(s, sep) == seq![s],
    decreases s.len(),
{
    if s.len() > 0 {
        lemma_split_fields_single(s.drop_last(), sep);
        assert(s.drop_last().push(s.last()) =~= s);
        assert(split_fields(s, sep) =~= seq![s]);
    } else {
        assert(s =~= Seq::<char>::empty());
    }
}

/// Splitting at a separator splits the two sides apart.
pub proof fn lemma_split_fields_concat(a: Seq<char>, b: Seq<char>, sep: char)
    ensures
        split_fields(a + seq![sep] + b, sep) == split_fields(a, sep) + split_fields(b, sep),
    decreases b.len(),
{
    lemma_split_fields_nonempty(a, sep);
    let joined = a + seq![sep] + b;
    if b.len() == 0 {
        assert(joined.drop_last() =~= a);
        assert(split_fields(b, sep) =~= seq![Seq::<char>::empty()]);
        assert(split_fields(joined, sep) =~= split_fields(a, sep) + split_fields(b, sep));
    } else {
        let b0 = b.drop_last();
        lemma_split_fields_concat(a, b0, sep);
        lemma_split_fields_nonempty(b0, sep);
        assert(joined.drop_last() =~= a + seq![sep] + b0);
        assert(joined.last() == b.last());
        assert(split_fields(joined, sep) =~= split_fields(a, sep) + split_fields(b, sep));
    }
}

/// The fields put back together, with `sep` between them.
pub open spec fn join_fields(fields: Seq<Seq<char>>, sep: char) -> Seq<char>
    decreases fields.len(),
{
    if fields.len() <= 1 {
        if fields.len() == 0 {
            Seq::empty()
        } else {
            fields[0]
        }
    } else {
        join_fields(fields.drop_last(), sep) + seq![sep] + fields.last()
    }
}

proof fn lemma_join_extend_last(fields: Seq<Seq<char>>, sep: char, c: char)
    requires
        fields.len() >= 1,
    ensures
        join_fields(fields.update(fields.len() - 1, fields.last().push(c)), sep) == join_fields(
            fields,
            sep,
        ).push(c),
{
    let updated = fields.update(fields.len() - 1, fields.last().push(c));
    if fields.len() == 1 {
        assert(join_fields(updated, sep) == updated[0]);
    } else {
        assert(updated.drop_last() =~= fields.drop_last());
        assert(join_fields(updated, sep) =~= join_fields(fields, sep).push(c));
    }
}

/// Splitting loses nothing: the fields joined again give the text back.
pub proof fn lemma_join_split(s: Seq<char>, sep: char)
    ensures
        join_fields(split_fields(s, sep), sep) == s,
    decreases s.len(),
{
    if s.len() == 0 {
        assert(join_fields(split_fields(s, sep), sep) =~= s);
    } else {
        let s0 = s.drop_last();
        lemma_join_split(s0, sep);
        lemma_split_fields_nonempty(s0, sep);
        let fields = split_fields(s0, sep);
        if s.last() == sep {
            assert(fields.push(Seq::<char>::empty()).drop_last() =~= fields);
            assert(join_fields(split_fields(s, sep), sep) =~= s);
        } else {
            lemma_join_extend_last(fields, sep, s.last());
            assert(s0.push(s.last()) =~= s);
        }
    }
}

/// Texts with the same fields are the same text.
pub proof fn lemma_split_fields_injective(a: Seq<char>, b: Seq<char>, sep: char)
    requires
        split_fields(a, sep) == split_fields(b, sep),
    ensures
        a == b,
{
    lemma_join_split(a, sep);
    lemma_join_split(b, sep);
}

} // verus!
