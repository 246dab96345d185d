use vstd::prelude::*;
use vstd::string::{is_ascii, StringSliceAdditionalSpecFns};

verus! {

/// What a request path addresses, before its method is looked at.
#[derive(Clone, Copy, Debug, PartialEq, Eq, Structural)]
pub enum Route {
    /// The landing page.
    Index,
    /// The list of all users.
    Users,
    /// One user, with the id given in the path if it was a valid id.
    User(Option<usize>),
    /// Any other path.
    NotFound,
}

/// `/`, `/index`, `/index.htm` or `/index.html`.
pub open spec fn is_index_path(p: Seq<u8>) -> bool {
    ||| p == "/".spec_bytes()
    ||| p == "/index".spec_bytes()
    ||| p == "/index.htm".spec_bytes()
    ||| p == "/index.html".spec_bytes()
}

/// `/users` or `/users/`.
pub open spec fn is_users_path(p: Seq<u8>) -> bool {
    p == "/users".spec_bytes() || p == "/users/".spec_bytes()
}

/// An ASCII decimal digit.
pub open spec fn is_digit(b: u8) -> bool {
    '0' as u8 <= b <= '9' as u8
}

/// Every byte is an ASCII decimal digit.
pub open spec fn all_digits(d: Seq<u8>) -> bool {
    forall|i: int| 0 <= i < d.len() ==> is_digit(#[trigger] d[i])
}

/// The number that a run of decimal digits denotes.
pub open spec fn digits_value(d: Seq<u8>) -> nat
    decreases d.len(),
{
    if d.len() == 0 {
        0
    } else {
        digits_value(d.drop_last()) * 10 + (d.last() - '0' as u8) as nat
    }
}

/// The part of a user path that follows `/user/`.
pub open spec fn user_tail(p: Seq<u8>) -> Seq<u8> {
    p.subrange("/user/".spec_bytes().len() as int, p.len() as int)
}

/// A user path's tail without its one trailing slash, if it has one.
pub open spec fn user_digits(t: Seq<u8>) -> Seq<u8> {
    if t.len() > 0 && t.last() == '/' as u8 {
        t.drop_last()
    } else {
        t
    }
}

/// `/user/`, `/user/<digits>` or `/user/<digits>/`.
pub open spec fn is_user_path(p: Seq<u8>) -> bool {
    let pre = "/user/".spec_bytes();
    &&& pre.len() <= p.len()
    &&& p.subrange(0, pre.len() as int) == pre
    &&& user_tail(p).len() == 0 || (user_digits(user_tail(p)).len() > 0 && all_digits(
        user_digits(user_tail(p)),
    ))
}

/// The id that a user path names: none where it gives no digits, or digits
/// whose value does not fit an id.
pub open spec fn user_id_of(p: Seq<u8>) -> Option<usize> {
    let d = user_digits(user_tail(p));
    if d.len() > 0 && digits_value(d) <= usize::MAX {
        Some(digits_value(d) as usize)
    } else {
        None
    }
}

/// The route of a path, matched against the whole path.
pub open spec fn route_of(p: Seq<u8>) -> Route {
    if is_index_path(p) {
        Route::Index
    } else if is_users_path(p) {
        Route::Users
    } else if is_user_path(p) {
        Route::User(user_id_of(p))
    } else {
        Route::NotFound
    }
}

fn bytes_eq(p: &[u8], lit: &[u8]) -> (r: bool)
    ensures
        r == (p@ == lit@),
{
    if p.len() != lit.len() {
        return false;
    }
    let mut i: usize = 0;
    while i < p.len()
        invariant
            p@.len() == lit@.len(),
            0 <= i <= p@.len(),
            p@.subrange(0, i as int) == lit@.subrange(0, i as int),
        decreases p@.len() - i,
    {
        if p[i] != lit[i] {
            assert(p@[i as int] != lit@[i as int]);
            return false;
        }
        assert(p@.subrange(0, i + 1) == p@.subrange(0, i as int).push(p@[i as int]));
        assert(lit@.subrange(0, i + 1) == lit@.subrange(0, i as int).push(lit@[i as int]));
        i = i + 1;
    }
    assert(p@ == p@.subrange(0, p@.len() as int));
    assert(lit@ == lit@.subrange(0, lit@.len() as int));
    true
}

fn starts_with(p: &[u8], lit: &[u8]) -> (r: bool)
    ensures
        r == (lit@.len() <= p@.len() && p@.subrange(0, lit@.len() as int) == lit@),
{
    if p.len() < lit.len() {
        return false;
    }
    let mut i: usize = 0;
    while i < lit.len()
        invariant
            lit@.len() <= p@.len(),
            0 <= i <= lit@.len(),
            p@.subrange(0, i as int) == lit@.subrange(0, i as int),
        decreases lit@.len() - i,
    {
        if p[i] != lit[i] {
            assert(p@.subrange(0, lit@.len() as int)[i as int] != lit@[i as int]);
            return false;
        }
        assert(p@.subrange(0, i + 1) == p@.subrange(0, i as int).push(p@[i as int]));
        assert(lit@.subrange(0, i + 1) == lit@.subrange(0, i as int).push(lit@[i as int]));
        i = i + 1;
    }
    assert(lit@ == lit@.subrange(0, lit@.len() as int));
    true
}

/// Reads the digits `p[start..end]` as an id; none where the value does not
/// fit.
fn parse_id(p: &[u8], start: usize, end: usize) -> (r: Option<usize>)
    requires
        start <= end <= p@.len(),
        all_digits(p@.subrange(start as int, end as int)),
    ensures
        r == (if digits_value(p@.subrange(start as int, end as int)) <= usize::MAX {
            Some(digits_value(p@.subrange(start as int, end as int)) as usize)
        } else {
            None
        }),
{
    let mut acc: usize = 0;
    let mut over = false;
    let mut i: usize = start;
    while i < end
        invariant
            start <= i <= end <= p@.len(),
            all_digits(p@.subrange(start as int, end as int)),
            !over ==> acc == digits_value(p@.subrange(start as int, i as int)),
            over ==> digits_value(p@.subrange(start as int, i as int)) > usize::MAX,
        decreases end - i,
    {
        let ghost prev = p@.subrange(start as int, i as int);
        let ghost next = p@.subrange(start as int, i + 1);
        assert(next.drop_last() == prev);
        assert(next.last() == p@[i as int]);
        assert(p@[i as int] == p@.subrange(start as int, end as int)[i - start]);
        let d = (p[i] - '0' as u8) as usize;
        assert(digits_value(next) == digits_value(prev) * 10 + d);
        if !over {
            match acc.checked_mul(10) {
                Some(m) => match m.checked_add(d) {
                    Some(v) => {
                        acc = v;
                    },
                    None => {
                        over = true;
                    },
                },
                None => {
                    assert(digits_value(next) >= digits_value(prev) * 10);
                    over = true;
                },
            }
        } else {
            assert(digits_value(next) >= digits_value(prev)) by (nonlinear_arith)
                requires
                    digits_value(next) == digits_value(prev) * 10 + d,
            ;
        }
        i = i + 1;
    }
    if over {
        None
    } else {
        Some(acc)
    }
}

fn all_digits_in(p: &[u8], start: usize, end: usize) -> (r: bool)
    requires
        start <= end <= p@.len(),
    ensures
        r == all_digits(p@.subrange(start as int, end as int)),
{
    let mut i: usize = start;
    while i < end
        invariant
            start <= i <= end <= p@.len(),
            forall|k: int| start <= k < i ==> is_digit(#[trigger] p@[k]),
        decreases end - i,
    {
        if p[i] < '0' as u8 || p[i] > '9' as u8 {
            assert(!is_digit(p@.subrange(start as int, end as int)[i - start]));
            return false;
        }
        i = i + 1;
    }
    assert forall|k: int| 0 <= k < end - start implies is_digit(
        #[trigger] p@.subrange(start as int, end as int)[k],
    ) by {
        assert(p@.subrange(start as int, end as int)[k] == p@[start + k]);
    }
    true
}

/// The route of a path given as bytes.
pub fn classify_bytes(p: &[u8]) -> (r: Route)
    ensures
        r == route_of(p@),
{
    if bytes_eq(p, "/".as_bytes()) || bytes_eq(p, "/index".as_bytes()) || bytes_eq(
        p,
        "/index.htm".as_bytes(),
    ) || bytes_eq(p, "/index.html".as_bytes()) {
        return Route::Index;
    }
    if bytes_eq(p, "/users".as_bytes()) || bytes_eq(p, "/users/".as_bytes()) {
        return Route::Users;
    }
    let pre = "/user/".as_bytes();
    if !starts_with(p, pre) {
        return Route::NotFound;
    }
    let start = pre.len();
    let n = p.len();
    let ghost tail = user_tail(p@);
    assert(tail == p@.subrange(start as int, n as int));
    if start == n {
        return Route::User(None);
    }
    let end = if p[n - 1] == '/' as u8 {
        n - 1
    } else {
        n
    };
    assert(user_digits(tail) == p@.subrange(start as int, end as int));
    if start == end || !all_digits_in(p, start, end) {
        return Route::NotFound;
    }
    Route::User(parse_id(p, start, end))
}

/// Paths are matched whole: exactly `/users` and `/users/` reach the user
/// list, so no longer, shorter or differently cased path does.
pub proof fn lemma_users_route_exact(p: Seq<u8>)
    ensures
        route_of(p) == Route::Users <==> (p == "/users".spec_bytes() || p == "/users/".spec_bytes()),
{
    reveal_strlit("/");
    reveal_strlit("/index");
    reveal_strlit("/index.htm");
    reveal_strlit("/index.html");
    reveal_strlit("/users");
    reveal_strlit("/users/");
    assert(is_ascii("/users") && is_ascii("/users/"));
    assert(is_ascii("/") && is_ascii("/index") && is_ascii("/index.htm") && is_ascii("/index.html"));
    let u = "/users".spec_bytes();
    let us = "/users/".spec_bytes();
    assert(u.len() == 6 && us.len() == 7);
    assert(u[1] == 'u' as u8 && us[1] == 'u' as u8);
    assert("/".spec_bytes().len() == 1);
    assert("/index".spec_bytes()[1] == 'i' as u8);
    assert("/index.htm".spec_bytes()[1] == 'i' as u8);
    assert("/index.html".spec_bytes()[1] == 'i' as u8);
}

/// The route of a request path.
pub fn classify(path: &str) -> (r: Route)
    ensures
        r == route_of(path.spec_bytes()),
{
    classify_bytes(path.as_bytes())
}

} // verus!
