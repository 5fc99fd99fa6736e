//! Identifier allocation: a namespace tag followed by a six-digit random
//! suffix, retried until the namespace reports the candidate as unused.

use vstd::prelude::*;
use vstd::arithmetic::div_mod::{lemma_div_denominator, lemma_fundamental_div_mod, lemma_multiply_divide_lt};
use vstd::string::StringExecFns;

verus! {

/// The entity namespaces within which identifiers must be unique.
#[derive(Clone, Copy, Debug, PartialEq, Eq, Structural)]
pub enum IdType {
    Staff,
    Item,
    Category,
    Modifier,
    Option,
    Discount,
}

impl IdType {
    /// The tag every identifier of this namespace starts with.
    pub open spec fn prefix_view(self) -> Seq<char> {
        match self {
            IdType::Staff => seq!['s', 't', 'a', 'f', 'f'],
            IdType::Item => seq!['i', 't', 'e', 'm'],
            IdType::Category => seq!['c', 'a', 't', 'e', 'g', 'o', 'r', 'y'],
            IdType::Modifier => seq!['m', 'o', 'd', 'i', 'f', 'i', 'e', 'r'],
            IdType::Option => seq!['o', 'p', 't', 'i', 'o', 'n'],
            IdType::Discount => seq!['d', 'i', 's', 'c', 'o', 'u', 'n', 't'],
        }
    }

    pub fn prefix(&self) -> (r: &'static str)
        ensures
            r@ == self.prefix_view(),
    {
        let r = match self {
            IdType::Staff => "staff",
            IdType::Item => "item",
            IdType::Category => "category",
            IdType::Modifier => "modifier",
            IdType::Option => "option",
            IdType::Discount => "discount",
        };
        proof {
            reveal_strlit("staff");
            reveal_strlit("item");
            reveal_strlit("category");
            reveal_strlit("modifier");
            reveal_strlit("option");
            reveal_strlit("discount");
        }
        r
    }

    /// The table that holds the entities of this namespace.
    pub open spec fn table_view(self) -> Seq<char> {
        match self {
            IdType::Staff => seq!['s', 't', 'a', 'f', 'f'],
            IdType::Item => seq!['i', 't', 'e', 'm', 's'],
            IdType::Category => seq!['c', 'a', 't', 'e', 'g', 'o', 'r', 'i', 'e', 's'],
            IdType::Modifier => seq!['m', 'o', 'd', 'i', 'f', 'i', 'e', 'r', 's'],
            IdType::Option => seq!['o', 'p', 't', 'i', 'o', 'n', 's'],
            IdType::Discount => seq!['d', 'i', 's', 'c', 'o', 'u', 'n', 't', 's'],
        }
    }

    pub fn table_name(&self) -> (r: &'static str)
        ensures
            r@ == self.table_view(),
    {
        let r = match self {
            IdType::Staff => "staff",
            IdType::Item => "items",
            IdType::Category => "categories",
            IdType::Modifier => "modifiers",
            IdType::Option => "options",
            IdType::Discount => "discounts",
        };
        proof {
            reveal_strlit("staff");
            reveal_strlit("items");
            reveal_strlit("categories");
            reveal_strlit("modifiers");
            reveal_strlit("options");
            reveal_strlit("discounts");
        }
        r
    }

    /// The column of that table that holds the identifier: the tag and `_id`.
    pub open spec fn column_view(self) -> Seq<char> {
        self.prefix_view() + seq!['_', 'i', 'd']
    }

    pub fn id_column(&self) -> (r: &'static str)
        ensures
            r@ == self.column_view(),
    {
        let r = match self {
            IdType::Staff => "staff_id",
            IdType::Item => "item_id",
            IdType::Category => "category_id",
            IdType::Modifier => "modifier_id",
            IdType::Option => "option_id",
            IdType::Discount => "discount_id",
        };
        proof {
            reveal_strlit("staff_id");
            reveal_strlit("item_id");
            reveal_strlit("category_id");
            reveal_strlit("modifier_id");
            reveal_strlit("option_id");
            reveal_strlit("discount_id");
            assert(r@ =~= self.column_view());
        }
        r
    }

    /// The identifier formed from this namespace's tag and the suffix `n`.
    pub open spec fn candidate_view(self, n: nat) -> Seq<char> {
        self.prefix_view() + six_digits(n)
    }

    /// Builds the identifier with suffix `n`, written with six decimal digits.
    pub fn candidate(&self, n: u32) -> (r: String)
        requires
            SUFFIX_MIN <= n < SUFFIX_END,
        ensures
            r@ == self.candidate_view(n as nat),
    {
        let mut r = String::from_str(self.prefix());
        let mut place: u32 = 100000;
        let mut k: usize = 0;
        proof {
            reveal_with_fuel(pow10, 6);
        }
        while k < 6
            invariant
                k <= 6,
                place as nat == pow10((5 - k) as nat) || (k == 6 && place == 0),
                n < 1000000,
                r@ == self.prefix_view() + six_digits(n as nat).take(k as int),
            decreases 6 - k,
        {
            proof {
                lemma_pow10_positive((5 - k) as nat);
            }
            let d = n / place % 10;
            proof {
                assert(six_digits(n as nat)[k as int] == digit_char((n as nat / pow10((5 - k) as nat)) % 10));
            }
            r.append(digit_str(d));
            proof {
                assert(six_digits(n as nat).take(k + 1) =~= six_digits(n as nat).take(k as int).push(
                    six_digits(n as nat)[k as int]));
                assert(r@ =~= self.prefix_view() + six_digits(n as nat).take(k + 1));
            }
            proof {
                if k < 5 {
                    assert(pow10((5 - k) as nat) == 10 * pow10((4 - k) as nat));
                }
            }
            place = place / 10;
            k = k + 1;
        }
        proof {
            assert(six_digits(n as nat).take(6) =~= six_digits(n as nat));
        }
        r
    }
}

/// Why no identifier came back.
#[derive(Clone, Copy, Debug, PartialEq, Eq, Structural)]
pub enum AllocError {
    /// Every candidate drawn was reported as already in use.
    Conflict,
}

/// How many candidates are drawn before the allocation gives up.
pub const MAX_ATTEMPTS: u32 = 1000;

/// Relies on rand's `Rng::gen_range` over `thread_rng`: a value of the
/// half-open range `lo..hi`. It panics only on an empty range.
#[verifier::external_body]
fn random_in(lo: u32, hi: u32) -> (r: u32)
    requires
        lo < hi,
    ensures
        lo <= r < hi,
{
    rand::Rng::gen_range(&mut rand::thread_rng(), lo..hi)
}

/// Proposes random identifiers of the namespace until `in_use` reports one as
/// unused, and returns it. The check and the insert that follows are not one
/// atomic step: under concurrent callers the store's uniqueness constraint is
/// what finally decides.
pub fn generate_id<F: Fn(&str) -> bool>(id_type: IdType, in_use: F) -> (r: Result<String, AllocError>)
    requires
        forall|s: &str| in_use.requires((s,)),
    ensures
        (forall|s: &str, b: bool| #[trigger] in_use.ensures((s,), b) ==> !b) ==> r is Ok,
        r is Ok ==> exists|n: nat, s: &str|
            SUFFIX_MIN <= n < SUFFIX_END && r->Ok_0@ == id_type.candidate_view(n) && s@ == r->Ok_0@
                && in_use.ensures((s,), false),
{
    let mut attempt: u32 = 0;
    while attempt < MAX_ATTEMPTS
        invariant
            forall|s: &str| in_use.requires((s,)),
            (forall|s: &str, b: bool| #[trigger] in_use.ensures((s,), b) ==> !b) ==> attempt == 0,
        decreases MAX_ATTEMPTS - attempt,
    {
        let n = random_in(SUFFIX_MIN, SUFFIX_END);
        let id = id_type.candidate(n);
        let taken = in_use(id.as_str());
        if !taken {
            return Ok(id);
        }
        attempt = attempt + 1;
    }
    Err(AllocError::Conflict)
}

/// The smallest suffix that is drawn.
pub const SUFFIX_MIN: u32 = 100000;

/// One past the largest suffix that is drawn.
pub const SUFFIX_END: u32 = 1000000;

/// Ten to the power `e`.
pub open spec fn pow10(e: nat) -> nat
    decreases e,
{
    if e == 0 {
        1
    } else {
        10 * pow10((e - 1) as nat)
    }
}

proof fn lemma_pow10_positive(e: nat)
    ensures
        pow10(e) > 0,
    decreases e,
{
    if e > 0 {
        lemma_pow10_positive((e - 1) as nat);
    }
}

/// The decimal digit `d` (below ten) as a character.
pub open spec fn digit_char(d: nat) -> char {
    if d == 0 { '0' }
    else if d == 1 { '1' }
    else if d == 2 { '2' }
    else if d == 3 { '3' }
    else if d == 4 { '4' }
    else if d == 5 { '5' }
    else if d == 6 { '6' }
    else if d == 7 { '7' }
    else if d == 8 { '8' }
    else { '9' }
}

/// The last six decimal digits of `n`, most significant first.
pub open spec fn six_digits(n: nat) -> Seq<char> {
    Seq::new(6, |i: int| digit_char((n / pow10((5 - i) as nat)) % 10))
}

fn digit_str(d: u32) -> (r: &'static str)
    requires
        d < 10,
    ensures
        r@ == seq![digit_char(d as nat)],
{
    proof {
        reveal_strlit("0");
        reveal_strlit("1");
        reveal_strlit("2");
        reveal_strlit("3");
        reveal_strlit("4");
        reveal_strlit("5");
        reveal_strlit("6");
        reveal_strlit("7");
        reveal_strlit("8");
        reveal_strlit("9");
    }
    let r = if d == 0 { "0" }
    else if d == 1 { "1" }
    else if d == 2 { "2" }
    else if d == 3 { "3" }
    else if d == 4 { "4" }
    else if d == 5 { "5" }
    else if d == 6 { "6" }
    else if d == 7 { "7" }
    else if d == 8 { "8" }
    else { "9" };
    proof {
        assert(r@ =~= seq![digit_char(d as nat)]);
    }
    r
}

proof fn lemma_digits_determine(n: nat, m: nat, k: nat)
    requires
        n < 1000000,
        m < 1000000,
        k <= 5,
        forall|e: nat| e <= 5 ==> (n / #[trigger] pow10(e)) % 10 == (m / pow10(e)) % 10,
    ensures
        n / pow10(k) == m / pow10(k),
    decreases 5 - k,
{
    reveal_with_fuel(pow10, 6);
    lemma_pow10_positive(k);
    if k == 5 {
        lemma_multiply_divide_lt(n as int, 100000, 10);
        lemma_multiply_divide_lt(m as int, 100000, 10);
        assert(pow10(5) == 100000);
    } else {
        lemma_digits_determine(n, m, k + 1);
        assert(pow10(k + 1) == pow10(k) * 10);
        lemma_div_denominator(n as int, pow10(k) as int, 10);
        lemma_div_denominator(m as int, pow10(k) as int, 10);
        lemma_fundamental_div_mod((n / pow10(k)) as int, 10);
        lemma_fundamental_div_mod((m / pow10(k)) as int, 10);
    }
}

/// Distinct suffixes give distinct identifiers within a namespace, so
/// candidates collide only when the drawn suffixes do.
pub proof fn lemma_distinct_suffixes_give_distinct_ids(t: IdType, n: nat, m: nat)
    requires
        SUFFIX_MIN <= n < SUFFIX_END,
        SUFFIX_MIN <= m < SUFFIX_END,
        n != m,
    ensures
        t.candidate_view(n) != t.candidate_view(m),
{
    if t.candidate_view(n) == t.candidate_view(m) {
        let p = t.prefix_view().len();
        assert forall|e: nat| e <= 5 implies (n / #[trigger] pow10(e)) % 10 == (m / pow10(e)) % 10 by {
            let i = 5 - e;
            assert(t.candidate_view(n)[p + i] == six_digits(n)[i]);
            assert(t.candidate_view(m)[p + i] == six_digits(m)[i]);
            assert((5 - i) as nat == e);
        }
        lemma_digits_determine(n, m, 0);
        assert(pow10(0) == 1);
    }
}

} // verus!
