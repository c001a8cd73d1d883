//! The written form of a version determines the version: no two versions
//! with well-formed pre-release and build texts are written alike.

use vstd::prelude::*;
use crate::text::is_ascii_digit;
use crate::version::{
    build_syntax, decimal, decimal_digits, is_identifier_char, lemma_decimal_digits_only,
    prerelease_syntax, version_text, VersionModel,
};

verus! {

/// Pre-release and build texts that `semver` accepts.
pub open spec fn well_formed_model(m: VersionModel) -> bool {
    prerelease_syntax(m.3) && build_syntax(m.4)
}

/// Where a text made of characters that do not `stop` is followed by a rest
/// that is empty or starts with a character that does, the split is unique.
proof fn lemma_unique_split(
    x: Seq<char>,
    y: Seq<char>,
    x2: Seq<char>,
    y2: Seq<char>,
    stop: spec_fn(char) -> bool,
)
    requires
        x + y == x2 + y2,
        forall|i: int| 0 <= i < x.len() ==> !stop(#[trigger] x[i]),
        forall|i: int| 0 <= i < x2.len() ==> !stop(#[trigger] x2[i]),
        y.len() == 0 || stop(y[0]),
        y2.len() == 0 || stop(y2[0]),
    ensures
        x == x2,
        y == y2,
{
    let whole = x + y;
    if x.len() < x2.len() {
        assert(whole[x.len() as int] == x2[x.len() as int]);
        if y.len() == 0 {
            assert(whole.len() == x.len());
        } else {
            assert(whole[x.len() as int] == y[0]);
        }
    } else if x2.len() < x.len() {
        assert(whole[x2.len() as int] == x[x2.len() as int]);
        if y2.len() == 0 {
            assert((x2 + y2).len() == x2.len());
        } else {
            assert((x2 + y2)[x2.len() as int] == y2[0]);
        }
    }
    assert(x =~= whole.subrange(0, x.len() as int));
    assert(x2 =~= (x2 + y2).subrange(0, x2.len() as int));
    assert(y =~= whole.subrange(x.len() as int, whole.len() as int));
    assert(y2 =~= (x2 + y2).subrange(x2.len() as int, whole.len() as int));
}

pub(crate) proof fn lemma_decimal_long(n: nat)
    ensures
        decimal(n).len() >= 1,
        n >= 10 ==> decimal(n).len() >= 2,
    decreases n,
{
    if n >= 10 {
        lemma_decimal_long(n / 10);
    }
}

/// Different numbers are written differently.
proof fn lemma_decimal_injective(a: nat, b: nat)
    requires
        decimal(a) == decimal(b),
    ensures
        a == b,
    decreases a,
{
    reveal_strlit("0123456789");
    lemma_decimal_long(a);
    lemma_decimal_long(b);
    if a < 10 && b < 10 {
        assert(decimal(a)[0] == decimal_digits()[a as int]);
        assert(decimal(b)[0] == decimal_digits()[b as int]);
    } else if a >= 10 && b >= 10 {
        let (da, db) = (decimal(a), decimal(b));
        assert(da.last() == decimal_digits()[(a % 10) as int]);
        assert(db.last() == decimal_digits()[(b % 10) as int]);
        assert(decimal(a / 10) =~= da.drop_last());
        assert(decimal(b / 10) =~= db.drop_last());
        lemma_decimal_injective(a / 10, b / 10);
    }
}

/// What follows `major.minor.patch`: `-pre` and `+build` where present.
pub open spec fn suffix_text(m: VersionModel) -> Seq<char> {
    (if m.3.len() > 0 {
        seq!['-'] + m.3
    } else {
        Seq::empty()
    }) + (if m.4.len() > 0 {
        seq!['+'] + m.4
    } else {
        Seq::empty()
    })
}

proof fn lemma_version_text_parts(m: VersionModel)
    ensures
        version_text(m) == decimal(m.0 as nat) + (seq!['.'] + (decimal(m.1 as nat) + (seq!['.'] + (
        decimal(m.2 as nat) + suffix_text(m))))),
{
    assert(version_text(m) =~= decimal(m.0 as nat) + (seq!['.'] + (decimal(m.1 as nat) + (seq!['.']
        + (decimal(m.2 as nat) + suffix_text(m))))));
}

/// No two well-formed versions are written alike.
pub proof fn law_version_text_injective(m1: VersionModel, m2: VersionModel)
    requires
        well_formed_model(m1),
        well_formed_model(m2),
        version_text(m1) == version_text(m2),
    ensures
        m1 == m2,
{
    lemma_version_text_parts(m1);
    lemma_version_text_parts(m2);
    lemma_decimal_digits_only(m1.0 as nat);
    lemma_decimal_digits_only(m1.1 as nat);
    lemma_decimal_digits_only(m1.2 as nat);
    lemma_decimal_digits_only(m2.0 as nat);
    lemma_decimal_digits_only(m2.1 as nat);
    lemma_decimal_digits_only(m2.2 as nat);
    let dot = |c: char| c == '.';
    let non_digit = |c: char| !is_ascii_digit(c);
    let plus = |c: char| c == '+';
    let (a0, a1, a2) = (decimal(m1.0 as nat), decimal(m1.1 as nat), decimal(m1.2 as nat));
    let (b0, b1, b2) = (decimal(m2.0 as nat), decimal(m2.1 as nat), decimal(m2.2 as nat));
    let (s1, s2) = (suffix_text(m1), suffix_text(m2));
    lemma_unique_split(
        a0,
        seq!['.'] + (a1 + (seq!['.'] + (a2 + s1))),
        b0,
        seq!['.'] + (b1 + (seq!['.'] + (b2 + s2))),
        dot,
    );
    assert((seq!['.'] + (a1 + (seq!['.'] + (a2 + s1)))).drop_first() =~= a1 + (seq!['.'] + (a2 + s1)));
    assert((seq!['.'] + (b1 + (seq!['.'] + (b2 + s2)))).drop_first() =~= b1 + (seq!['.'] + (b2 + s2)));
    lemma_unique_split(a1, seq!['.'] + (a2 + s1), b1, seq!['.'] + (b2 + s2), dot);
    assert((seq!['.'] + (a2 + s1)).drop_first() =~= a2 + s1);
    assert((seq!['.'] + (b2 + s2)).drop_first() =~= b2 + s2);
    assert(s1.len() == 0 || non_digit(s1[0]));
    assert(s2.len() == 0 || non_digit(s2[0]));
    lemma_unique_split(a2, s1, b2, s2, non_digit);
    lemma_decimal_injective(m1.0 as nat, m2.0 as nat);
    lemma_decimal_injective(m1.1 as nat, m2.1 as nat);
    lemma_decimal_injective(m1.2 as nat, m2.2 as nat);
    // The suffixes: `-pre` runs up to the `+` of the build metadata.
    let p1 = if m1.3.len() > 0 { seq!['-'] + m1.3 } else { Seq::<char>::empty() };
    let p2 = if m2.3.len() > 0 { seq!['-'] + m2.3 } else { Seq::<char>::empty() };
    let q1 = if m1.4.len() > 0 { seq!['+'] + m1.4 } else { Seq::<char>::empty() };
    let q2 = if m2.4.len() > 0 { seq!['+'] + m2.4 } else { Seq::<char>::empty() };
    assert(s1 == p1 + q1);
    assert(s2 == p2 + q2);
    assert forall|i: int| 0 <= i < p1.len() implies !plus(#[trigger] p1[i]) by {
        if i > 0 {
            assert(p1[i] == m1.3[i - 1]);
            assert(is_identifier_char(m1.3[i - 1]) || m1.3[i - 1] == '.');
        }
    }
    assert forall|i: int| 0 <= i < p2.len() implies !plus(#[trigger] p2[i]) by {
        if i > 0 {
            assert(p2[i] == m2.3[i - 1]);
            assert(is_identifier_char(m2.3[i - 1]) || m2.3[i - 1] == '.');
        }
    }
    lemma_unique_split(p1, q1, p2, q2, plus);
    if m1.3.len() > 0 {
        assert(m1.3 =~= p1.drop_first());
        assert(m2.3 =~= p2.drop_first());
    } else {
        assert(m1.3 =~= m2.3);
    }
    if m1.4.len() > 0 {
        assert(m1.4 =~= q1.drop_first());
        assert(m2.4 =~= q2.drop_first());
    } else {
        assert(m1.4 =~= m2.4);
    }
}

} // verus!
