//! The subscription record and an in-memory model of the subscriptions
//! store: rows are only ever appended, a row is immutable once created, and
//! the store assigns each new row the decimal rendering of its index as its
//! identifier. Lookup by email returns the first matching row; with
//! duplicate emails this first-inserted tie-break is the documented choice.

use vstd::prelude::*;
use vstd::string::StringExecFns;
use crate::json::json_escape;

verus! {

/// One persisted subscription. All fields are immutable after creation.
pub struct Subscription {
    pub id: String,
    pub email: String,
    pub user_name: String,
    pub subscribed_at: String,
}

/// The mathematical content of a subscription.
pub ghost struct SubscriptionV {
    pub id: Seq<char>,
    pub email: Seq<char>,
    pub user_name: Seq<char>,
    pub subscribed_at: Seq<char>,
}

impl View for Subscription {
    type V = SubscriptionV;

    open spec fn view(&self) -> SubscriptionV {
        SubscriptionV {
            id: self.id@,
            email: self.email@,
            user_name: self.user_name@,
            subscribed_at: self.subscribed_at@,
        }
    }
}

/// The JSON object serializing a subscription, fields in declaration order,
/// every value a JSON string.
pub open spec fn subscription_json(s: SubscriptionV) -> Seq<char> {
    "{\"id\":\""@ + json_escape(s.id) + "\",\"email\":\""@ + json_escape(s.email)
        + "\",\"user_name\":\""@ + json_escape(s.user_name) + "\",\"subscribed_at\":\""@
        + json_escape(s.subscribed_at) + "\"}"@
}

impl Subscription {
    /// The JSON body returned for a found subscription.
    pub fn to_json(&self) -> (r: String)
        ensures
            r@ == subscription_json(self@),
    {
        let mut out = String::new();
        out.append("{\"id\":\"");
        out.append(crate::json::escape_json(self.id.as_str()).as_str());
        out.append("\",\"email\":\"");
        out.append(crate::json::escape_json(self.email.as_str()).as_str());
        out.append("\",\"user_name\":\"");
        out.append(crate::json::escape_json(self.user_name.as_str()).as_str());
        out.append("\",\"subscribed_at\":\"");
        out.append(crate::json::escape_json(self.subscribed_at.as_str()).as_str());
        out.append("\"}");
        proof {
            assert(out@ =~= subscription_json(self@));
        }
        out
    }
}

/// The decimal digits of `n`, most significant first.
pub open spec fn dec_digits(n: nat) -> Seq<char>
    decreases n,
{
    if n < 10 {
        seq![((48 + n) as u8) as char]
    } else {
        dec_digits(n / 10) + seq![((48 + n % 10) as u8) as char]
    }
}

/// The decimal rendering of `n`.
pub fn u64_to_dec(n: u64) -> (r: String)
    ensures
        r@ == dec_digits(n as nat),
    decreases n,
{
    if n < 10 {
        let mut s = String::new();
        crate::text::push_char(&mut s, ((48 + n) as u8) as char);
        proof {
            assert(s@ =~= dec_digits(n as nat));
        }
        s
    } else {
        let mut s = u64_to_dec(n / 10);
        crate::text::push_char(&mut s, ((48 + n % 10) as u8) as char);
        proof {
            assert(s@ =~= dec_digits(n as nat));
        }
        s
    }
}

/// The in-memory subscriptions store: an append-only list of rows.
pub struct Store {
    pub rows: Vec<Subscription>,
}

impl View for Store {
    type V = Seq<SubscriptionV>;

    open spec fn view(&self) -> Seq<SubscriptionV> {
        Seq::new(self.rows@.len(), |i: int| self.rows@[i]@)
    }
}

/// Index of the first row whose email is `e`, or `rows.len()` if none
/// matches.
pub open spec fn first_match(rows: Seq<SubscriptionV>, e: Seq<char>) -> int
    decreases rows.len(),
{
    if rows.len() == 0 {
        0
    } else if rows[0].email == e {
        0
    } else {
        1 + first_match(rows.skip(1), e)
    }
}

/// `first_match` is in bounds exactly when a match exists, points at a
/// matching row, and nothing before it matches.
pub proof fn lemma_first_match(rows: Seq<SubscriptionV>, e: Seq<char>)
    ensures
        0 <= first_match(rows, e) <= rows.len(),
        first_match(rows, e) < rows.len() <==> exists|j: int|
            0 <= j < rows.len() && rows[j].email == e,
        first_match(rows, e) < rows.len() ==> rows[first_match(rows, e)].email == e,
        forall|j: int| 0 <= j < first_match(rows, e) ==> rows[j].email != e,
    decreases rows.len(),
{
    if rows.len() == 0 {
    } else if rows[0].email == e {
    } else {
        lemma_first_match(rows.skip(1), e);
        if exists|j: int| 0 <= j < rows.len() && rows[j].email == e {
            let j = choose|j: int| 0 <= j < rows.len() && rows[j].email == e;
            assert(rows.skip(1)[j - 1] == rows[j]);
        }
        assert forall|j: int| 0 <= j < first_match(rows, e) implies rows[j].email != e by {
            if j > 0 {
                assert(rows.skip(1)[j - 1] == rows[j]);
            }
        }
    }
}

/// How many rows carry the email `e`.
pub open spec fn count_with_email(rows: Seq<SubscriptionV>, e: Seq<char>) -> int
    decreases rows.len(),
{
    if rows.len() == 0 {
        0
    } else {
        count_with_email(rows.drop_last(), e) + if rows.last().email == e {
            1int
        } else {
            0int
        }
    }
}

/// Appending one row raises the count for its own email by exactly one and
/// leaves the count for every other email unchanged.
pub proof fn lemma_push_count(rows: Seq<SubscriptionV>, s: SubscriptionV, e: Seq<char>)
    ensures
        count_with_email(rows.push(s), e) == count_with_email(rows, e) + if s.email == e {
            1int
        } else {
            0int
        },
{
    assert(rows.push(s).drop_last() =~= rows);
}

/// Creates with distinct emails, in whatever order the store serializes
/// them, each add exactly one row for their own email and none for any
/// other: no write is lost and no row is duplicated.
pub proof fn lemma_distinct_creates(
    rows: Seq<SubscriptionV>,
    s1: SubscriptionV,
    s2: SubscriptionV,
    e: Seq<char>,
)
    requires
        s1.email != s2.email,
    ensures
        count_with_email(rows.push(s1).push(s2), s1.email) == count_with_email(rows, s1.email) + 1,
        count_with_email(rows.push(s1).push(s2), s2.email) == count_with_email(rows, s2.email) + 1,
        e != s1.email && e != s2.email ==> count_with_email(rows.push(s1).push(s2), e)
            == count_with_email(rows, e),
{
    lemma_push_count(rows, s1, s1.email);
    lemma_push_count(rows.push(s1), s2, s1.email);
    lemma_push_count(rows, s1, s2.email);
    lemma_push_count(rows.push(s1), s2, s2.email);
    lemma_push_count(rows, s1, e);
    lemma_push_count(rows.push(s1), s2, e);
}

impl Store {
    /// Every row's identifier is the decimal rendering of its index.
    pub open spec fn wf(&self) -> bool {
        forall|i: int| 0 <= i < self@.len() ==> self@[i].id == dec_digits(i as nat)
    }

    /// An empty store.
    pub fn new() -> (s: Store)
        ensures
            s@ == Seq::<SubscriptionV>::empty(),
            s.wf(),
    {
        let s = Store { rows: Vec::new() };
        proof {
            assert(s@ =~= Seq::<SubscriptionV>::empty());
        }
        s
    }

    /// Insert one new row. Exactly one row is appended; its identifier is
    /// generated from the row's index; every existing row is untouched.
    pub fn create(&mut self, email: &str, user_name: &str, subscribed_at: &str)
        requires
            old(self).wf(),
            old(self)@.len() < u64::MAX,
        ensures
            final (self).wf(),
            final (self)@ == old(self)@.push(
                SubscriptionV {
                    id: dec_digits(old(self)@.len()),
                    email: email@,
                    user_name: user_name@,
                    subscribed_at: subscribed_at@,
                },
            ),
    {
        let id = u64_to_dec(self.rows.len() as u64);
        let row = Subscription {
            id,
            email: email.to_owned(),
            user_name: user_name.to_owned(),
            subscribed_at: subscribed_at.to_owned(),
        };
        let ghost rows0 = self@;
        let ghost rowv = row@;
        self.rows.push(row);
        proof {
            assert(self@ =~= rows0.push(rowv));
        }
    }

    /// Find the first row whose email is exactly `email`, if any.
    pub fn find_by_email(&self, email: &str) -> (r: Option<&Subscription>)
        ensures
            r is Some <==> exists|j: int| 0 <= j < self@.len() && self@[j].email == email@,
            r is Some ==> first_match(self@, email@) < self@.len(),
            r is Some ==> r.unwrap()@ == self@.index(first_match(self@, email@)),
    {
        proof {
            lemma_first_match(self@, email@);
        }
        let n = self.rows.len();
        let mut i: usize = 0;
        while i < n
            invariant
                n == self.rows.len(),
                self@.len() == n,
                0 <= i <= n,
                forall|j: int| 0 <= j < i ==> self@[j].email != email@,
            decreases n - i,
        {
            if crate::text::str_eq(self.rows[i].email.as_str(), email) {
                proof {
                    lemma_first_match(self@, email@);
                    assert(self@[i as int].email == email@);
                }
                return Some(&self.rows[i]);
            }
            i = i + 1;
        }
        proof {
            assert(forall|j: int| 0 <= j < self@.len() ==> self@[j].email != email@);
        }
        None
    }
}

/// The decimal rendering of a number is never empty, and has one digit
/// exactly for the numbers below ten.
proof fn lemma_dec_digits_len(n: nat)
    ensures
        dec_digits(n).len() >= 1,
        n < 10 <==> dec_digits(n).len() == 1,
    decreases n,
{
    if n >= 10 {
        lemma_dec_digits_len(n / 10);
    }
}

/// Distinct numbers have distinct decimal renderings.
pub proof fn lemma_dec_digits_injective(a: nat, b: nat)
    requires
        dec_digits(a) == dec_digits(b),
    ensures
        a == b,
    decreases a,
{
    lemma_dec_digits_len(a);
    lemma_dec_digits_len(b);
    if a < 10 && b < 10 {
        assert(dec_digits(a)[0] == ((48 + a) as u8) as char);
        assert(dec_digits(b)[0] == ((48 + b) as u8) as char);
        assert((((48 + a) as u8) as char) as u32 == (((48 + b) as u8) as char) as u32);
    } else if a >= 10 && b >= 10 {
        let da = dec_digits(a);
        let db = dec_digits(b);
        assert(da[da.len() - 1] == ((48 + a % 10) as u8) as char);
        assert(db[db.len() - 1] == ((48 + b % 10) as u8) as char);
        assert((((48 + a % 10) as u8) as char) as u32 == (((48 + b % 10) as u8) as char) as u32);
        assert(a % 10 == b % 10);
        assert(dec_digits(a / 10) =~= da.drop_last());
        assert(dec_digits(b / 10) =~= db.drop_last());
        lemma_dec_digits_injective(a / 10, b / 10);
        vstd::arithmetic::div_mod::lemma_fundamental_div_mod(a as int, 10);
        vstd::arithmetic::div_mod::lemma_fundamental_div_mod(b as int, 10);
    }
}

/// In a well-formed store no two rows share an identifier: the generated
/// id is unique for the life of the store.
pub proof fn lemma_ids_unique(s: &Store)
    requires
        s.wf(),
    ensures
        forall|i: int, j: int|
            0 <= i < s@.len() && 0 <= j < s@.len() && i != j ==> s@[i].id != s@[j].id,
{
    assert forall|i: int, j: int|
        0 <= i < s@.len() && 0 <= j < s@.len() && i != j implies s@[i].id != s@[j].id by {
        if s@[i].id == s@[j].id {
            lemma_dec_digits_injective(i as nat, j as nat);
        }
    }
}

} // verus!
