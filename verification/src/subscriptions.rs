//! The subscription-intake pipeline: validate a form body and append a row
//! to the `subscriptions` relation.
//!
//! A body is accepted exactly when it parses as form data and carries
//! non-empty `name` and `email` values; acceptance appends one row holding
//! those decoded values and answers 200. Anything else is rejected with 400
//! and leaves the relation unchanged. A storage failure reported by the
//! caller maps to 500.

use vstd::prelude::*;

use crate::form::{form_value, spec_form_value};

verus! {

/// The bytes of the key `name`.
pub open spec fn name_key() -> Seq<u8> {
    seq![110u8, 97u8, 109u8, 101u8]
}

/// The bytes of the key `email`.
pub open spec fn email_key() -> Seq<u8> {
    seq![101u8, 109u8, 97u8, 105u8, 108u8]
}

/// The key `name` as a vector.
pub fn name_key_vec() -> (r: Vec<u8>)
    ensures
        r@ == name_key(),
{
    let mut r: Vec<u8> = Vec::new();
    r.push(110);
    r.push(97);
    r.push(109);
    r.push(101);
    proof {
        assert(r@ =~= name_key());
    }
    r
}

/// The key `email` as a vector.
pub fn email_key_vec() -> (r: Vec<u8>)
    ensures
        r@ == email_key(),
{
    let mut r: Vec<u8> = Vec::new();
    r.push(101);
    r.push(109);
    r.push(97);
    r.push(105);
    r.push(108);
    proof {
        assert(r@ =~= email_key());
    }
    r
}

/// The decoded `name` value of a body, if any.
pub open spec fn spec_sub_name(body: Seq<u8>) -> Option<Seq<u8>> {
    spec_form_value(body, name_key())
}

/// The decoded `email` value of a body, if any.
pub open spec fn spec_sub_email(body: Seq<u8>) -> Option<Seq<u8>> {
    spec_form_value(body, email_key())
}

/// A body is accepted exactly when it parses as form data and both `name`
/// and `email` are present and non-empty.
pub open spec fn spec_subscribe_ok(body: Seq<u8>) -> bool {
    &&& spec_sub_name(body) is Some
    &&& spec_sub_name(body).unwrap().len() > 0
    &&& spec_sub_email(body) is Some
    &&& spec_sub_email(body).unwrap().len() > 0
}

/// A validated subscription: the decoded, non-empty `name` and `email` of an
/// accepted body.
pub struct Subscription {
    pub name: Vec<u8>,
    pub email: Vec<u8>,
}

impl Subscription {
    /// Both fields are non-empty.
    pub open spec fn valid(&self) -> bool {
        self.name@.len() > 0 && self.email@.len() > 0
    }
}

/// Parses and validates a request body: `Some` exactly on accepted bodies,
/// carrying their decoded `name` and `email`.
pub fn parse_subscription(body: &Vec<u8>) -> (r: Option<Subscription>)
    ensures
        r is Some <==> spec_subscribe_ok(body@),
        match r {
            Some(s) => s.name@ == spec_sub_name(body@).unwrap() && s.email@ == spec_sub_email(
                body@,
            ).unwrap() && s.valid(),
            None => true,
        },
{
    let name = match form_value(body, &name_key_vec()) {
        Some(n) => n,
        None => {
            return None;
        },
    };
    let email = match form_value(body, &email_key_vec()) {
        Some(e) => e,
        None => {
            return None;
        },
    };
    if name.len() == 0 || email.len() == 0 {
        return None;
    }
    Some(Subscription { name, email })
}

/// The `subscriptions` relation, modelled as the sequence of its rows in
/// insertion order; a row is a `(name, email)` pair of decoded bytes. The
/// service only ever appends: no update, no delete, no uniqueness.
pub struct Relation {
    rows: Vec<Subscription>,
}

impl View for Relation {
    type V = Seq<(Seq<u8>, Seq<u8>)>;

    closed spec fn view(&self) -> Seq<(Seq<u8>, Seq<u8>)> {
        self.rows@.map_values(|s: Subscription| (s.name@, s.email@))
    }
}

impl Relation {
    /// An empty relation.
    pub fn new() -> (r: Self)
        ensures
            r@ == Seq::<(Seq<u8>, Seq<u8>)>::empty(),
    {
        let r = Relation { rows: Vec::new() };
        proof {
            assert(r@ =~= Seq::<(Seq<u8>, Seq<u8>)>::empty());
        }
        r
    }

    /// The number of rows.
    pub fn len(&self) -> (n: usize)
        ensures
            n == self@.len(),
    {
        self.rows.len()
    }

    /// Appends one row; every earlier row stays where it was.
    pub fn insert(&mut self, s: Subscription)
        ensures
            final(self)@ == old(self)@.push((s.name@, s.email@)),
    {
        let ghost before = self@;
        let ghost row = (s.name@, s.email@);
        self.rows.push(s);
        proof {
            assert(self@ =~= before.push(row));
        }
    }

    /// The row at position `i`.
    pub fn row(&self, i: usize) -> (r: &Subscription)
        requires
            i < self@.len(),
        ensures
            (r.name@, r.email@) == self@[i as int],
    {
        &self.rows[i]
    }
}

/// The row an accepted body inserts: its decoded `name` and `email`.
pub open spec fn spec_row_of(body: Seq<u8>) -> (Seq<u8>, Seq<u8>) {
    (spec_sub_name(body).unwrap(), spec_sub_email(body).unwrap())
}

/// What one subscription request does to the relation: an accepted body
/// appends its row and answers 200; any other body leaves the relation
/// unchanged and answers 400.
pub open spec fn spec_apply_subscribe(rows: Seq<(Seq<u8>, Seq<u8>)>, body: Seq<u8>) -> (Seq<
    (Seq<u8>, Seq<u8>),
>, u16) {
    if spec_subscribe_ok(body) {
        (rows.push(spec_row_of(body)), 200u16)
    } else {
        (rows, 400u16)
    }
}

/// Runs one subscription request against the relation, following
/// `spec_apply_subscribe`.
pub fn apply_subscribe(store: &mut Relation, body: &Vec<u8>) -> (status: u16)
    ensures
        (final(store)@, status) == spec_apply_subscribe(old(store)@, body@),
{
    match parse_subscription(body) {
        Some(s) => {
            store.insert(s);
            200
        },
        None => 400,
    }
}

/// The status a persist outcome maps to: 200 when the insert went through,
/// 500 when the store failed.
pub open spec fn spec_subscribe_status(insert_ok: bool) -> u16 {
    if insert_ok {
        200u16
    } else {
        500u16
    }
}

/// Maps the outcome of the store's insert to the response status, following
/// `spec_subscribe_status`.
pub fn subscribe_status(insert_ok: bool) -> (status: u16)
    ensures
        status == spec_subscribe_status(insert_ok),
{
    if insert_ok {
        200
    } else {
        500
    }
}

/// A body with non-empty `name` and `email` is accepted: the answer is 200
/// and exactly one row is appended, holding those decoded values; every
/// earlier row is untouched.
pub proof fn lemma_valid_subscribe(rows: Seq<(Seq<u8>, Seq<u8>)>, body: Seq<u8>)
    requires
        spec_subscribe_ok(body),
    ensures
        spec_apply_subscribe(rows, body).1 == 200,
        spec_apply_subscribe(rows, body).0 == rows.push(spec_row_of(body)),
        spec_apply_subscribe(rows, body).0.len() == rows.len() + 1,
        spec_apply_subscribe(rows, body).0.last() == spec_row_of(body),
        spec_apply_subscribe(rows, body).0.take(rows.len() as int) == rows,
{
    assert(rows.push(spec_row_of(body)).take(rows.len() as int) =~= rows);
}

/// A body missing `name`, missing `email` (or with either empty), or not
/// parsable as form data is rejected: the answer is 400 and no row is
/// inserted.
pub proof fn lemma_invalid_subscribe(rows: Seq<(Seq<u8>, Seq<u8>)>, body: Seq<u8>)
    requires
        !spec_subscribe_ok(body),
    ensures
        spec_apply_subscribe(rows, body) == (rows, 400u16),
{
}

/// Subscribing is not idempotent: the same accepted body submitted twice is
/// accepted twice and appends two identical rows.
pub proof fn lemma_resubmit_appends_again(rows: Seq<(Seq<u8>, Seq<u8>)>, body: Seq<u8>)
    requires
        spec_subscribe_ok(body),
    ensures
        ({
            let (rows1, status1) = spec_apply_subscribe(rows, body);
            let (rows2, status2) = spec_apply_subscribe(rows1, body);
            &&& status1 == 200
            &&& status2 == 200
            &&& rows2.len() == rows.len() + 2
            &&& rows2[rows.len() as int] == spec_row_of(body)
            &&& rows2[rows.len() + 1 as int] == spec_row_of(body)
            &&& rows2.take(rows.len() as int) == rows
        }),
{
    let (rows1, status1) = spec_apply_subscribe(rows, body);
    let (rows2, status2) = spec_apply_subscribe(rows1, body);
    assert(rows2.take(rows.len() as int) =~= rows);
}

} // verus!
