//! The order that the `semver` crate documents for versions: the numeric
//! parts compared as numbers, then the pre-release, then the build metadata,
//! both compared identifier by identifier along their dot-separated parts.
//! With each order comes the proof that it is a total preorder.

use vstd::prelude::*;
use crate::text::{
    is_ascii_digit, lemma_split_fields_concat, lemma_split_fields_injective, lemma_split_fields_nonempty,
    lemma_split_fields_single, split_fields,
};
use crate::version::{decimal, decimal_digits, lemma_decimal_digits_only};
use crate::written::lemma_decimal_long;

verus! {

/// -1, 0 or 1 as `x` is below, equal to or above `y`.
pub open spec fn int_order(x: int, y: int) -> int {
    if x < y {
        -1
    } else if x == y {
        0
    } else {
        1
    }
}

/// Compares by `first`, and by `second` where `first` ties.
pub open spec fn then_order(first: int, second: int) -> int {
    if first != 0 {
        first
    } else {
        second
    }
}

/// The six comparisons among three values `a`, `b`, `c` (`ab` compares `a`
/// with `b`, and so on) are -1, 0 or 1, antisymmetric, and transitive in
/// every arrangement.
pub open spec fn comparison_laws(ab: int, ba: int, bc: int, cb: int, ac: int, ca: int) -> bool {
    &&& -1 <= ab <= 1 && -1 <= bc <= 1 && -1 <= ac <= 1
    &&& ab == -ba && bc == -cb && ac == -ca
    &&& (ab <= 0 && bc <= 0 ==> ac <= 0)
    &&& (ba <= 0 && ac <= 0 ==> bc <= 0)
    &&& (ac <= 0 && cb <= 0 ==> ab <= 0)
    &&& (bc <= 0 && ca <= 0 ==> ba <= 0)
    &&& (ca <= 0 && ab <= 0 ==> cb <= 0)
    &&& (cb <= 0 && ba <= 0 ==> ca <= 0)
}

pub(crate) proof fn lemma_int_order(x: int, y: int, z: int)
    ensures
        comparison_laws(
            int_order(x, y),
            int_order(y, x),
            int_order(y, z),
            int_order(z, y),
            int_order(x, z),
            int_order(z, x),
        ),
{
}

/// Comparing by one total preorder and then by another gives a total preorder.
pub(crate) proof fn lemma_then_order(
    pab: int,
    pba: int,
    pbc: int,
    pcb: int,
    pac: int,
    pca: int,
    qab: int,
    qba: int,
    qbc: int,
    qcb: int,
    qac: int,
    qca: int,
)
    requires
        comparison_laws(pab, pba, pbc, pcb, pac, pca),
        comparison_laws(qab, qba, qbc, qcb, qac, qca),
    ensures
        comparison_laws(
            then_order(pab, qab),
            then_order(pba, qba),
            then_order(pbc, qbc),
            then_order(pcb, qcb),
            then_order(pac, qac),
            then_order(pca, qca),
        ),
{
}

/// The order of `str`: character by character, a proper prefix first.
pub open spec fn text_order(a: Seq<char>, b: Seq<char>) -> int
    decreases a.len(),
{
    if a.len() == 0 {
        if b.len() == 0 {
            0
        } else {
            -1
        }
    } else if b.len() == 0 {
        1
    } else {
        then_order(int_order(a[0] as int, b[0] as int), text_order(a.drop_first(), b.drop_first()))
    }
}

proof fn lemma_text_order_antisymmetric(a: Seq<char>, b: Seq<char>)
    ensures
        text_order(a, b) == -text_order(b, a),
        -1 <= text_order(a, b) <= 1,
    decreases a.len(),
{
    if a.len() > 0 && b.len() > 0 {
        lemma_text_order_antisymmetric(a.drop_first(), b.drop_first());
    }
}

proof fn lemma_text_order(a: Seq<char>, b: Seq<char>, c: Seq<char>)
    ensures
        comparison_laws(
            text_order(a, b),
            text_order(b, a),
            text_order(b, c),
            text_order(c, b),
            text_order(a, c),
            text_order(c, a),
        ),
    decreases a.len(),
{
    lemma_text_order_antisymmetric(a, b);
    lemma_text_order_antisymmetric(b, c);
    lemma_text_order_antisymmetric(a, c);
    if a.len() > 0 && b.len() > 0 && c.len() > 0 {
        let (a1, b1, c1) = (a.drop_first(), b.drop_first(), c.drop_first());
        lemma_text_order(a1, b1, c1);
        lemma_int_order(a[0] as int, b[0] as int, c[0] as int);
        lemma_then_order(
            int_order(a[0] as int, b[0] as int),
            int_order(b[0] as int, a[0] as int),
            int_order(b[0] as int, c[0] as int),
            int_order(c[0] as int, b[0] as int),
            int_order(a[0] as int, c[0] as int),
            int_order(c[0] as int, a[0] as int),
            text_order(a1, b1),
            text_order(b1, a1),
            text_order(b1, c1),
            text_order(c1, b1),
            text_order(a1, c1),
            text_order(c1, a1),
        );
    }
}


/// An identifier made of digits only, which `semver` compares as a number.
#[verifier::opaque]
pub open spec fn is_numeric(x: Seq<char>) -> bool {
    forall|i: int| 0 <= i < x.len() ==> is_ascii_digit(#[trigger] x[i])
}

/// A numeric identifier with its leading zeros taken off.
pub open spec fn trim_zeros(x: Seq<char>) -> Seq<char>
    decreases x.len(),
{
    if x.len() > 0 && x[0] == '0' {
        trim_zeros(x.drop_first())
    } else {
        x
    }
}

/// Numbers before words; numbers by value, words in ASCII order. As
/// pre-release numbers have no leading zeros, a longer number is larger.
pub open spec fn prerelease_identifier_order(x: Seq<char>, y: Seq<char>) -> int {
    if is_numeric(x) && is_numeric(y) {
        then_order(int_order(x.len() as int, y.len() as int), text_order(x, y))
    } else if is_numeric(x) {
        -1
    } else if is_numeric(y) {
        1
    } else {
        text_order(x, y)
    }
}

/// As for pre-releases, but numbers may have leading zeros: by value, and
/// between equal values the one with fewer zeros first.
pub open spec fn build_identifier_order(x: Seq<char>, y: Seq<char>) -> int {
    if is_numeric(x) && is_numeric(y) {
        build_number_order(x, y)
    } else if is_numeric(x) {
        -1
    } else if is_numeric(y) {
        1
    } else {
        text_order(x, y)
    }
}

pub open spec fn identifier_order(x: Seq<char>, y: Seq<char>, build: bool) -> int {
    if build {
        build_identifier_order(x, y)
    } else {
        prerelease_identifier_order(x, y)
    }
}

proof fn lemma_prerelease_identifier_order(x: Seq<char>, y: Seq<char>, z: Seq<char>)
    ensures
        comparison_laws(
            prerelease_identifier_order(x, y),
            prerelease_identifier_order(y, x),
            prerelease_identifier_order(y, z),
            prerelease_identifier_order(z, y),
            prerelease_identifier_order(x, z),
            prerelease_identifier_order(z, x),
        ),
{
    lemma_text_order(x, y, z);
    lemma_int_order(x.len() as int, y.len() as int, z.len() as int);
    lemma_then_order(
        int_order(x.len() as int, y.len() as int),
        int_order(y.len() as int, x.len() as int),
        int_order(y.len() as int, z.len() as int),
        int_order(z.len() as int, y.len() as int),
        int_order(x.len() as int, z.len() as int),
        int_order(z.len() as int, x.len() as int),
        text_order(x, y),
        text_order(y, x),
        text_order(y, z),
        text_order(z, y),
        text_order(x, z),
        text_order(z, x),
    );
}

/// Compares two numeric identifiers of build metadata.
pub open spec fn build_number_order(x: Seq<char>, y: Seq<char>) -> int {
    then_order(
        int_order(trim_zeros(x).len() as int, trim_zeros(y).len() as int),
        then_order(text_order(trim_zeros(x), trim_zeros(y)), int_order(x.len() as int, y.len() as int)),
    )
}

proof fn lemma_build_number_order(x: Seq<char>, y: Seq<char>, z: Seq<char>)
    ensures
        comparison_laws(
            build_number_order(x, y),
            build_number_order(y, x),
            build_number_order(y, z),
            build_number_order(z, y),
            build_number_order(x, z),
            build_number_order(z, x),
        ),
{
    let (tx, ty, tz) = (trim_zeros(x), trim_zeros(y), trim_zeros(z));
    lemma_int_order(x.len() as int, y.len() as int, z.len() as int);
    lemma_text_order(tx, ty, tz);
    lemma_int_order(tx.len() as int, ty.len() as int, tz.len() as int);
    lemma_then_order(
        text_order(tx, ty),
        text_order(ty, tx),
        text_order(ty, tz),
        text_order(tz, ty),
        text_order(tx, tz),
        text_order(tz, tx),
        int_order(x.len() as int, y.len() as int),
        int_order(y.len() as int, x.len() as int),
        int_order(y.len() as int, z.len() as int),
        int_order(z.len() as int, y.len() as int),
        int_order(x.len() as int, z.len() as int),
        int_order(z.len() as int, x.len() as int),
    );
    lemma_then_order(
        int_order(tx.len() as int, ty.len() as int),
        int_order(ty.len() as int, tx.len() as int),
        int_order(ty.len() as int, tz.len() as int),
        int_order(tz.len() as int, ty.len() as int),
        int_order(tx.len() as int, tz.len() as int),
        int_order(tz.len() as int, tx.len() as int),
        then_order(text_order(tx, ty), int_order(x.len() as int, y.len() as int)),
        then_order(text_order(ty, tx), int_order(y.len() as int, x.len() as int)),
        then_order(text_order(ty, tz), int_order(y.len() as int, z.len() as int)),
        then_order(text_order(tz, ty), int_order(z.len() as int, y.len() as int)),
        then_order(text_order(tx, tz), int_order(x.len() as int, z.len() as int)),
        then_order(text_order(tz, tx), int_order(z.len() as int, x.len() as int)),
    );
}

proof fn lemma_build_identifier_order(x: Seq<char>, y: Seq<char>, z: Seq<char>)
    ensures
        comparison_laws(
            build_identifier_order(x, y),
            build_identifier_order(y, x),
            build_identifier_order(y, z),
            build_identifier_order(z, y),
            build_identifier_order(x, z),
            build_identifier_order(z, x),
        ),
{
    lemma_text_order(x, y, z);
    lemma_build_number_order(x, y, z);
}

proof fn lemma_identifier_order(x: Seq<char>, y: Seq<char>, z: Seq<char>, build: bool)
    ensures
        comparison_laws(
            identifier_order(x, y, build),
            identifier_order(y, x, build),
            identifier_order(y, z, build),
            identifier_order(z, y, build),
            identifier_order(x, z, build),
            identifier_order(z, x, build),
        ),
{
    if build {
        lemma_build_identifier_order(x, y, z);
    } else {
        lemma_prerelease_identifier_order(x, y, z);
    }
}

/// Lists of identifiers, compared identifier by identifier; a proper prefix
/// comes first.
pub open spec fn identifiers_order(xs: Seq<Seq<char>>, ys: Seq<Seq<char>>, build: bool) -> int
    decreases xs.len(),
{
    if xs.len() == 0 {
        if ys.len() == 0 {
            0
        } else {
            -1
        }
    } else if ys.len() == 0 {
        1
    } else {
        then_order(
            identifier_order(xs[0], ys[0], build),
            identifiers_order(xs.drop_first(), ys.drop_first(), build),
        )
    }
}

proof fn lemma_identifiers_order_antisymmetric(xs: Seq<Seq<char>>, ys: Seq<Seq<char>>, build: bool)
    ensures
        identifiers_order(xs, ys, build) == -identifiers_order(ys, xs, build),
        -1 <= identifiers_order(xs, ys, build) <= 1,
    decreases xs.len(),
{
    if xs.len() > 0 && ys.len() > 0 {
        lemma_identifiers_order_antisymmetric(xs.drop_first(), ys.drop_first(), build);
        lemma_identifier_order(xs[0], ys[0], ys[0], build);
    }
}

proof fn lemma_identifiers_order(xs: Seq<Seq<char>>, ys: Seq<Seq<char>>, zs: Seq<Seq<char>>, build: bool)
    ensures
        comparison_laws(
            identifiers_order(xs, ys, build),
            identifiers_order(ys, xs, build),
            identifiers_order(ys, zs, build),
            identifiers_order(zs, ys, build),
            identifiers_order(xs, zs, build),
            identifiers_order(zs, xs, build),
        ),
    decreases xs.len(),
{
    lemma_identifiers_order_antisymmetric(xs, ys, build);
    lemma_identifiers_order_antisymmetric(ys, zs, build);
    lemma_identifiers_order_antisymmetric(xs, zs, build);
    if xs.len() > 0 && ys.len() > 0 && zs.len() > 0 {
        let (xs1, ys1, zs1) = (xs.drop_first(), ys.drop_first(), zs.drop_first());
        lemma_identifiers_order(xs1, ys1, zs1, build);
        lemma_identifier_order(xs[0], ys[0], zs[0], build);
        lemma_then_order(
            identifier_order(xs[0], ys[0], build),
            identifier_order(ys[0], xs[0], build),
            identifier_order(ys[0], zs[0], build),
            identifier_order(zs[0], ys[0], build),
            identifier_order(xs[0], zs[0], build),
            identifier_order(zs[0], xs[0], build),
            identifiers_order(xs1, ys1, build),
            identifiers_order(ys1, xs1, build),
            identifiers_order(ys1, zs1, build),
            identifiers_order(zs1, ys1, build),
            identifiers_order(xs1, zs1, build),
            identifiers_order(zs1, xs1, build),
        );
    }
}

/// The order of `semver::Prerelease`: no pre-release (a release) above any
/// pre-release, else the dot-separated identifiers compared in turn.
pub open spec fn prerelease_order(a: Seq<char>, b: Seq<char>) -> int {
    if a.len() == 0 && b.len() == 0 {
        0
    } else if a.len() == 0 {
        1
    } else if b.len() == 0 {
        -1
    } else {
        identifiers_order(split_fields(a, '.'), split_fields(b, '.'), false)
    }
}

/// The order of `semver::BuildMetadata`: the dot-separated identifiers
/// compared in turn.
pub open spec fn build_order(a: Seq<char>, b: Seq<char>) -> int {
    identifiers_order(split_fields(a, '.'), split_fields(b, '.'), true)
}

pub proof fn lemma_prerelease_order(a: Seq<char>, b: Seq<char>, c: Seq<char>)
    ensures
        comparison_laws(
            prerelease_order(a, b),
            prerelease_order(b, a),
            prerelease_order(b, c),
            prerelease_order(c, b),
            prerelease_order(a, c),
            prerelease_order(c, a),
        ),
{
    lemma_identifiers_order(split_fields(a, '.'), split_fields(b, '.'), split_fields(c, '.'), false);
}

pub proof fn lemma_build_order(a: Seq<char>, b: Seq<char>, c: Seq<char>)
    ensures
        comparison_laws(
            build_order(a, b),
            build_order(b, a),
            build_order(b, c),
            build_order(c, b),
            build_order(a, c),
            build_order(c, a),
        ),
{
    lemma_identifiers_order(split_fields(a, '.'), split_fields(b, '.'), split_fields(c, '.'), true);
}


proof fn lemma_text_order_zero(a: Seq<char>, b: Seq<char>)
    requires
        text_order(a, b) == 0,
    ensures
        a == b,
    decreases a.len(),
{
    if a.len() > 0 && b.len() > 0 {
        lemma_text_order_zero(a.drop_first(), b.drop_first());
        assert(a =~= seq![a[0]] + a.drop_first());
        assert(b =~= seq![b[0]] + b.drop_first());
    } else {
        assert(a =~= b);
    }
}

proof fn lemma_prerelease_identifiers_zero(xs: Seq<Seq<char>>, ys: Seq<Seq<char>>)
    requires
        identifiers_order(xs, ys, false) == 0,
    ensures
        xs == ys,
    decreases xs.len(),
{
    if xs.len() > 0 && ys.len() > 0 {
        assert(prerelease_identifier_order(xs[0], ys[0]) == 0);
        lemma_text_order_zero(xs[0], ys[0]);
        lemma_prerelease_identifiers_zero(xs.drop_first(), ys.drop_first());
        assert(xs =~= seq![xs[0]] + xs.drop_first());
        assert(ys =~= seq![ys[0]] + ys.drop_first());
    } else {
        assert(xs =~= ys);
    }
}

/// Different pre-release texts are never ranked alike.
pub proof fn lemma_prerelease_order_distinct(a: Seq<char>, b: Seq<char>)
    ensures
        prerelease_order(a, b) == 0 <==> a == b,
{
    if prerelease_order(a, b) == 0 {
        if a.len() > 0 && b.len() > 0 {
            lemma_prerelease_identifiers_zero(split_fields(a, '.'), split_fields(b, '.'));
            lemma_split_fields_injective(a, b, '.');
        } else {
            assert(a =~= b);
        }
    }
    if a == b {
        lemma_prerelease_order(a, a, a);
    }
}


proof fn lemma_text_order_first_difference(a: Seq<char>, b: Seq<char>, k: int)
    requires
        0 <= k < a.len(),
        k < b.len(),
        a.take(k) == b.take(k),
        a[k] < b[k],
    ensures
        text_order(a, b) == -1,
    decreases k,
{
    if k > 0 {
        assert(a[0] == a.take(k)[0]);
        assert(b[0] == b.take(k)[0]);
        assert(a.drop_first().take(k - 1) =~= a.take(k).drop_first());
        assert(b.drop_first().take(k - 1) =~= b.take(k).drop_first());
        lemma_text_order_first_difference(a.drop_first(), b.drop_first(), k - 1);
    }
}

proof fn lemma_text_order_proper_prefix(a: Seq<char>, b: Seq<char>)
    requires
        a.len() < b.len(),
        a == b.take(a.len() as int),
    ensures
        text_order(a, b) == -1,
    decreases a.len(),
{
    if a.len() > 0 {
        assert(a[0] == b[0]);
        assert(a.drop_first() =~= b.drop_first().take(a.len() - 1));
        lemma_text_order_proper_prefix(a.drop_first(), b.drop_first());
    }
}

/// Pre-release words (identifiers holding a non-digit) are ranked in ASCII
/// order: at their first difference the smaller character ranks lower, and a
/// word ranks below any longer word it begins.
pub proof fn law_prerelease_words(x: Seq<char>, y: Seq<char>, k: int)
    requires
        forall|i: int| 0 <= i < x.len() ==> x[i] != '.',
        forall|i: int| 0 <= i < y.len() ==> y[i] != '.',
        exists|i: int| 0 <= i < x.len() && !is_ascii_digit(#[trigger] x[i]),
        exists|i: int| 0 <= i < y.len() && !is_ascii_digit(#[trigger] y[i]),
    ensures
        0 <= k < x.len() && k < y.len() && x.take(k) == y.take(k) && x[k] < y[k] ==> prerelease_order(
            x,
            y,
        ) == -1,
        x.len() < y.len() && x == y.take(x.len() as int) ==> prerelease_order(x, y) == -1,
{
    lemma_split_fields_single(x, '.');
    lemma_split_fields_single(y, '.');
    reveal(is_numeric);
    if 0 <= k < x.len() && k < y.len() && x.take(k) == y.take(k) && x[k] < y[k] {
        lemma_text_order_first_difference(x, y, k);
    }
    if x.len() < y.len() && x == y.take(x.len() as int) {
        lemma_text_order_proper_prefix(x, y);
    }
}

proof fn lemma_text_order_push(p: Seq<char>, q: Seq<char>, c: char, d: char)
    requires
        p.len() == q.len(),
    ensures
        text_order(p.push(c), q.push(d)) == then_order(text_order(p, q), int_order(c as int, d as int)),
    decreases p.len(),
{
    if p.len() > 0 {
        assert(p.push(c).drop_first() =~= p.drop_first().push(c));
        assert(q.push(d).drop_first() =~= q.drop_first().push(d));
        assert(p.push(c)[0] == p[0]);
        assert(q.push(d)[0] == q[0]);
        lemma_text_order_push(p.drop_first(), q.drop_first(), c, d);
    } else {
        assert(p.push(c).drop_first() =~= Seq::<char>::empty());
        assert(q.push(d).drop_first() =~= Seq::<char>::empty());
        assert(p =~= Seq::<char>::empty());
        assert(q =~= Seq::<char>::empty());
    }
}

proof fn lemma_decimal_shorter(n: nat, m: nat)
    requires
        decimal(n).len() < decimal(m).len(),
    ensures
        n < m,
    decreases n,
{
    lemma_decimal_long(n);
    lemma_decimal_long(m);
    if n >= 10 && m >= 10 {
        assert(decimal(n).len() == decimal(n / 10).len() + 1);
        assert(decimal(m).len() == decimal(m / 10).len() + 1);
        lemma_decimal_shorter(n / 10, m / 10);
    }
}

proof fn lemma_decimal_same_length(n: nat, m: nat)
    requires
        decimal(n).len() == decimal(m).len(),
    ensures
        text_order(decimal(n), decimal(m)) == int_order(n as int, m as int),
    decreases n,
{
    reveal_strlit("0123456789");
    lemma_decimal_long(n);
    lemma_decimal_long(m);
    let digits = decimal_digits();
    assert(digits[0] == '0' && digits[1] == '1' && digits[2] == '2' && digits[3] == '3' && digits[4]
        == '4' && digits[5] == '5' && digits[6] == '6' && digits[7] == '7' && digits[8] == '8'
        && digits[9] == '9');
    if n < 10 && m < 10 {
        assert(decimal(n) =~= seq![].push(digits[n as int]));
        assert(decimal(m) =~= seq![].push(digits[m as int]));
        lemma_text_order_push(seq![], seq![], digits[n as int], digits[m as int]);
    } else if n >= 10 && m >= 10 {
        let (n1, m1) = (n / 10, m / 10);
        assert(decimal(n) == decimal(n1).push(digits[(n % 10) as int]));
        assert(decimal(m) == decimal(m1).push(digits[(m % 10) as int]));
        lemma_decimal_same_length(n1, m1);
        lemma_text_order_push(decimal(n1), decimal(m1), digits[(n % 10) as int], digits[(m % 10) as int]);
        assert(n == 10 * n1 + n % 10);
        assert(m == 10 * m1 + m % 10);
        if n1 < m1 {
            assert(n < m) by (nonlinear_arith)
                requires n == 10 * n1 + n % 10, m == 10 * m1 + m % 10, n1 < m1, n % 10 < 10, m % 10 >= 0;
        } else if m1 < n1 {
            assert(m < n) by (nonlinear_arith)
                requires n == 10 * n1 + n % 10, m == 10 * m1 + m % 10, m1 < n1, m % 10 < 10, n % 10 >= 0;
        }
    }
}

proof fn lemma_decimal_identifier(n: nat)
    ensures
        decimal(n).len() >= 1,
        is_numeric(decimal(n)),
        split_fields(decimal(n), '.') == seq![decimal(n)],
{
    lemma_decimal_long(n);
    lemma_decimal_digits_only(n);
    reveal(is_numeric);
    assert forall|i: int| 0 <= i < decimal(n).len() implies decimal(n)[i] != '.' by {
        assert(is_ascii_digit(decimal(n)[i]));
    }
    lemma_split_fields_single(decimal(n), '.');
}

/// Numeric pre-release identifiers are ranked by their value.
pub proof fn law_prerelease_numbers(n: nat, m: nat)
    ensures
        prerelease_order(decimal(n), decimal(m)) == int_order(n as int, m as int),
{
    lemma_decimal_identifier(n);
    lemma_decimal_identifier(m);
    assert(seq![decimal(n)].drop_first() =~= Seq::<Seq<char>>::empty());
    assert(seq![decimal(m)].drop_first() =~= Seq::<Seq<char>>::empty());
    let (dn, dm) = (decimal(n), decimal(m));
    let (xs, ys) = (seq![dn], seq![dm]);
    assert(identifiers_order(Seq::<Seq<char>>::empty(), Seq::<Seq<char>>::empty(), false) == 0);
    assert(identifiers_order(xs, ys, false) == then_order(
        prerelease_identifier_order(dn, dm),
        0,
    ));
    assert(prerelease_order(dn, dm) == prerelease_identifier_order(dn, dm));
    if dn.len() < dm.len() {
        lemma_decimal_shorter(n, m);
    } else if dm.len() < dn.len() {
        lemma_decimal_shorter(m, n);
    } else {
        lemma_decimal_same_length(n, m);
    }
}

/// A numeric pre-release identifier ranks below any word.
pub proof fn law_prerelease_number_below_word(n: nat, y: Seq<char>)
    requires
        forall|i: int| 0 <= i < y.len() ==> y[i] != '.',
        exists|i: int| 0 <= i < y.len() && !is_ascii_digit(#[trigger] y[i]),
    ensures
        prerelease_order(decimal(n), y) == -1,
{
    lemma_decimal_identifier(n);
    lemma_split_fields_single(y, '.');
    reveal(is_numeric);
    assert(y.len() > 0);
    assert(seq![decimal(n)].drop_first() =~= Seq::<Seq<char>>::empty());
    assert(seq![y].drop_first() =~= Seq::<Seq<char>>::empty());
}

proof fn lemma_identifiers_longer(xs: Seq<Seq<char>>, ys: Seq<Seq<char>>)
    requires
        ys.len() > 0,
    ensures
        identifiers_order(xs, xs + ys, false) == -1,
    decreases xs.len(),
{
    if xs.len() > 0 {
        lemma_prerelease_identifier_order(xs[0], xs[0], xs[0]);
        assert((xs + ys)[0] == xs[0]);
        assert((xs + ys).drop_first() =~= xs.drop_first() + ys);
        lemma_identifiers_longer(xs.drop_first(), ys);
    } else {
        assert(xs + ys =~= ys);
    }
}

/// A pre-release ranks below the same pre-release with more identifiers.
pub proof fn law_prerelease_more_identifiers(x: Seq<char>, y: Seq<char>)
    requires
        x.len() > 0,
    ensures
        prerelease_order(x, x + seq!['.'] + y) == -1,
{
    lemma_split_fields_concat(x, y, '.');
    lemma_split_fields_nonempty(y, '.');
    lemma_identifiers_longer(split_fields(x, '.'), split_fields(y, '.'));
    assert((x + seq!['.'] + y).len() > 0);
}


proof fn lemma_decimal_no_leading_zero(n: nat)
    requires
        n >= 1,
    ensures
        decimal(n)[0] != '0',
        trim_zeros(decimal(n)) == decimal(n),
    decreases n,
{
    reveal_strlit("0123456789");
    lemma_decimal_long(n);
    if n >= 10 {
        lemma_decimal_no_leading_zero(n / 10);
        lemma_decimal_long(n / 10);
        assert(decimal(n)[0] == decimal(n / 10)[0]);
    } else {
        assert(decimal_digits()[n as int] != '0');
    }
}

/// Numeric build identifiers written without leading zeros are ranked by
/// their value.
pub proof fn law_build_numbers(n: nat, m: nat)
    ensures
        build_order(decimal(n), decimal(m)) == int_order(n as int, m as int),
{
    reveal_strlit("0123456789");
    lemma_decimal_identifier(n);
    lemma_decimal_identifier(m);
    let (dn, dm) = (decimal(n), decimal(m));
    assert(seq![dn].drop_first() =~= Seq::<Seq<char>>::empty());
    assert(seq![dm].drop_first() =~= Seq::<Seq<char>>::empty());
    assert(identifiers_order(Seq::<Seq<char>>::empty(), Seq::<Seq<char>>::empty(), true) == 0);
    assert(build_order(dn, dm) == build_number_order(dn, dm));
    if n == 0 {
        assert(dn =~= seq!['0']);
        assert(dn.drop_first() =~= Seq::<char>::empty());
        assert(trim_zeros(Seq::<char>::empty()) =~= Seq::<char>::empty());
        assert(trim_zeros(dn) =~= Seq::<char>::empty());
    } else {
        lemma_decimal_no_leading_zero(n);
    }
    if m == 0 {
        assert(dm =~= seq!['0']);
        assert(dm.drop_first() =~= Seq::<char>::empty());
        assert(trim_zeros(Seq::<char>::empty()) =~= Seq::<char>::empty());
        assert(trim_zeros(dm) =~= Seq::<char>::empty());
    } else {
        lemma_decimal_no_leading_zero(m);
    }
    if n > 0 && m > 0 {
        if dn.len() < dm.len() {
            lemma_decimal_shorter(n, m);
        } else if dm.len() < dn.len() {
            lemma_decimal_shorter(m, n);
        } else {
            lemma_decimal_same_length(n, m);
        }
    }
}

/// A version without build metadata ranks below one with it.
pub proof fn law_build_absent_first(y: Seq<char>)
    requires
        y.len() > 0,
    ensures
        build_order(Seq::empty(), y) == -1,
{
    reveal(is_numeric);
    let e = Seq::<char>::empty();
    assert(split_fields(e, '.') == seq![e]);
    lemma_split_fields_nonempty(y, '.');
    lemma_text_order_antisymmetric(e, e);
    let ys = split_fields(y, '.');
    assert(seq![e].drop_first() =~= Seq::<Seq<char>>::empty());
    lemma_identifiers_order_antisymmetric(Seq::<Seq<char>>::empty(), ys.drop_first(), true);
    if ys[0].len() == 0 {
        // `y` starts with a dot, so it has a second field.
        lemma_join_split_first(y);
        assert(trim_zeros(e) == e);
        assert(build_identifier_order(e, ys[0]) == 0);
    } else {
        let y0 = ys[0];
        if is_numeric(y0) {
            if trim_zeros(y0).len() == 0 {
                assert(build_number_order(e, y0) == -1);
            }
        }
    }
}

proof fn lemma_join_split_first(y: Seq<char>)
    requires
        y.len() > 0,
        split_fields(y, '.')[0].len() == 0,
    ensures
        split_fields(y, '.').len() >= 2,
{
    crate::text::lemma_join_split(y, '.');
    lemma_split_fields_nonempty(y, '.');
    if split_fields(y, '.').len() == 1 {
        assert(crate::text::join_fields(split_fields(y, '.'), '.') == split_fields(y, '.')[0]);
    }
}

} // verus!
