use vstd::prelude::*;
use vstd::string::*;

verus! {

/// The HTTP methods the service answers.
#[derive(Clone, Copy, Debug, PartialEq, Eq, Structural)]
pub enum Method {
    Get,
    Post,
    Put,
    Delete,
}

/// What a request asks of the store.
#[derive(Clone, Copy, Debug, PartialEq, Eq, Structural)]
pub enum Route {
    List,
    Create,
    Read(i64),
    Update(i64),
    Delete(i64),
}

/// The path of the collection of todos.
pub open spec fn collection_path() -> Seq<char> {
    seq!['/', 'v', '1', '/', 't', 'o', 'd', 'o', 's']
}

/// The collection's path followed by the separator before an id.
pub open spec fn item_prefix() -> Seq<char> {
    collection_path().push('/')
}

pub open spec fn is_digit(c: char) -> bool {
    '0' <= c && c <= '9'
}

pub open spec fn all_digits(s: Seq<char>) -> bool {
    forall|i: int| 0 <= i < s.len() ==> is_digit(#[trigger] s[i])
}

/// The number that a run of decimal digits writes, most significant first.
pub open spec fn digits_value(s: Seq<char>) -> int
    decreases s.len(),
{
    if s.len() == 0 {
        0
    } else {
        digits_value(s.drop_last()) * 10 + (s.last() as int - '0' as int)
    }
}

/// The digits of an id after its optional sign.
pub open spec fn unsigned_part(s: Seq<char>) -> Seq<char> {
    if s.len() > 0 && (s[0] == '-' || s[0] == '+') {
        s.skip(1)
    } else {
        s
    }
}

/// The id that a path segment writes: an optional sign and one or more
/// decimal digits, whose value fits in an `i64`.
pub open spec fn id_value(s: Seq<char>) -> Option<i64> {
    let ds = unsigned_part(s);
    let v = if s.len() > 0 && s[0] == '-' {
        -digits_value(ds)
    } else {
        digits_value(ds)
    };
    if ds.len() > 0 && all_digits(ds) && i64::MIN <= v <= i64::MAX {
        Some(v as i64)
    } else {
        None
    }
}

/// The route that a method and a path name, if any.
pub open spec fn route_of(method: Method, path: Seq<char>) -> Option<Route> {
    if path == collection_path() {
        match method {
            Method::Get => Some(Route::List),
            Method::Post => Some(Route::Create),
            _ => None,
        }
    } else if path.len() > item_prefix().len() && path.take(item_prefix().len() as int)
        == item_prefix() {
        match id_value(path.skip(item_prefix().len() as int)) {
            Some(id) => match method {
                Method::Get => Some(Route::Read(id)),
                Method::Put => Some(Route::Update(id)),
                Method::Delete => Some(Route::Delete(id)),
                _ => None,
            },
            None => None,
        }
    } else {
        None
    }
}

pub open spec fn digit_char(d: int) -> char {
    seq!['0', '1', '2', '3', '4', '5', '6', '7', '8', '9'][d]
}

/// The decimal digits of `n`, most significant first, without leading zeros.
pub open spec fn decimal_of(n: nat) -> Seq<char>
    decreases n,
{
    if n < 10 {
        seq![digit_char(n as int)]
    } else {
        decimal_of(n / 10).push(digit_char(n as int % 10))
    }
}

/// How an id is written in a path: a minus sign where it is negative, then
/// its decimal digits.
pub open spec fn id_text(id: i64) -> Seq<char> {
    if id < 0 {
        seq!['-'] + decimal_of((-id) as nat)
    } else {
        decimal_of(id as nat)
    }
}

/// The method a route is requested with.
pub open spec fn method_of(r: Route) -> Method {
    match r {
        Route::List => Method::Get,
        Route::Create => Method::Post,
        Route::Read(_) => Method::Get,
        Route::Update(_) => Method::Put,
        Route::Delete(_) => Method::Delete,
    }
}

/// The path a route is requested at.
pub open spec fn path_of(r: Route) -> Seq<char> {
    match r {
        Route::List | Route::Create => collection_path(),
        Route::Read(id) | Route::Update(id) | Route::Delete(id) => item_prefix() + id_text(id),
    }
}

proof fn lemma_digit_char(d: int)
    requires
        0 <= d < 10,
    ensures
        is_digit(digit_char(d)),
        digit_char(d) as int - '0' as int == d,
{
    let s = seq!['0', '1', '2', '3', '4', '5', '6', '7', '8', '9'];
    if d == 0 { assert(s[0] == '0'); }
    else if d == 1 { assert(s[1] == '1'); }
    else if d == 2 { assert(s[2] == '2'); }
    else if d == 3 { assert(s[3] == '3'); }
    else if d == 4 { assert(s[4] == '4'); }
    else if d == 5 { assert(s[5] == '5'); }
    else if d == 6 { assert(s[6] == '6'); }
    else if d == 7 { assert(s[7] == '7'); }
    else if d == 8 { assert(s[8] == '8'); }
    else { assert(s[9] == '9'); }
}

/// The digits of `n` are digits, and write `n`.
proof fn lemma_decimal_of(n: nat)
    ensures
        decimal_of(n).len() > 0,
        all_digits(decimal_of(n)),
        digits_value(decimal_of(n)) == n,
    decreases n,
{
    if n < 10 {
        lemma_digit_char(n as int);
        let s = decimal_of(n);
        assert(s.drop_last() =~= Seq::<char>::empty());
        assert(digits_value(Seq::<char>::empty()) == 0);
    } else {
        lemma_decimal_of(n / 10);
        lemma_digit_char(n as int % 10);
        let p = decimal_of(n / 10);
        let s = decimal_of(n);
        assert(s.drop_last() =~= p);
        assert forall|i: int| 0 <= i < s.len() implies is_digit(#[trigger] s[i]) by {
            if i < p.len() {
                assert(s[i] == p[i]);
            }
        }
    }
}

/// Reading back the text of an id gives the id.
proof fn lemma_id_text(id: i64)
    ensures
        id_text(id).len() > 0,
        id_value(id_text(id)) == Some(id),
{
    if id < 0 {
        let d = decimal_of((-id) as nat);
        lemma_decimal_of((-id) as nat);
        assert(unsigned_part(id_text(id)) =~= d);
    } else {
        let d = decimal_of(id as nat);
        lemma_decimal_of(id as nat);
        assert(is_digit(d[0]));
        assert(unsigned_part(id_text(id)) == d);
    }
}

/// Each route, requested with its method at its path, is parsed back to
/// itself.
pub proof fn lemma_route_round_trip(r: Route)
    ensures
        route_of(method_of(r), path_of(r)) == Some(r),
{
    match r {
        Route::List | Route::Create => {},
        Route::Read(id) | Route::Update(id) | Route::Delete(id) => {
            lemma_id_text(id);
            let p = path_of(r);
            assert(p.len() > item_prefix().len());
            assert(p != collection_path());
            assert(p.take(item_prefix().len() as int) =~= item_prefix());
            assert(p.skip(item_prefix().len() as int) =~= id_text(id));
        },
    }
}

/// The text of the digit `d`.
fn digit_str(d: u64) -> (r: &'static str)
    requires
        d < 10,
    ensures
        r@ == seq![digit_char(d as int)],
{
    proof {
        reveal_strlit("0"); reveal_strlit("1"); reveal_strlit("2"); reveal_strlit("3");
        reveal_strlit("4"); reveal_strlit("5"); reveal_strlit("6"); reveal_strlit("7");
        reveal_strlit("8"); reveal_strlit("9");
    }
    let ghost s = seq!['0', '1', '2', '3', '4', '5', '6', '7', '8', '9'];
    if d == 0 { assert("0"@ =~= seq![s[0]]); "0" }
    else if d == 1 { assert("1"@ =~= seq![s[1]]); "1" }
    else if d == 2 { assert("2"@ =~= seq![s[2]]); "2" }
    else if d == 3 { assert("3"@ =~= seq![s[3]]); "3" }
    else if d == 4 { assert("4"@ =~= seq![s[4]]); "4" }
    else if d == 5 { assert("5"@ =~= seq![s[5]]); "5" }
    else if d == 6 { assert("6"@ =~= seq![s[6]]); "6" }
    else if d == 7 { assert("7"@ =~= seq![s[7]]); "7" }
    else if d == 8 { assert("8"@ =~= seq![s[8]]); "8" }
    else { assert("9"@ =~= seq![s[9]]); "9" }
}

/// Appends the decimal digits of `n` to `out`.
fn push_decimal(out: &mut String, n: u64)
    ensures
        final(out)@ == old(out)@ + decimal_of(n as nat),
    decreases n,
{
    let ghost start = out@;
    if n >= 10 {
        push_decimal(out, n / 10);
    }
    out.append(digit_str(n % 10));
    assert(out@ =~= start + decimal_of(n as nat));
}

/// A longer run of digits writes a number no smaller than its prefix.
proof fn lemma_digits_prefix(s: Seq<char>, k: int)
    requires
        all_digits(s),
        0 <= k <= s.len(),
    ensures
        0 <= digits_value(s.take(k)) <= digits_value(s),
    decreases s.len(),
{
    if s.len() > 0 {
        let d = s.drop_last();
        assert(is_digit(s[s.len() - 1]));
        assert(all_digits(d)) by {
            assert forall|i: int| 0 <= i < d.len() implies is_digit(#[trigger] d[i]) by {
                assert(d[i] == s[i]);
            }
        }
        if k == s.len() {
            assert(s.take(k) =~= s);
            lemma_digits_prefix(d, d.len() as int);
            assert(d.take(d.len() as int) =~= d);
        } else {
            lemma_digits_prefix(d, k);
            assert(d.take(k) =~= s.take(k));
            lemma_digits_prefix(d, d.len() as int);
            assert(d.take(d.len() as int) =~= d);
        }
    }
}

/// The id written by the characters of `s` from position `start` on.
fn parse_id(s: &str, start: usize) -> (r: Option<i64>)
    requires
        start <= s@.len(),
    ensures
        r == id_value(s@.skip(start as int)),
{
    let n = s.unicode_len();
    let ghost seg = s@.skip(start as int);
    let mut i = start;
    let mut neg = false;
    if i < n {
        let c = s.get_char(i);
        if c == '-' || c == '+' {
            neg = c == '-';
            i = i + 1;
        }
    }
    let ghost ds = unsigned_part(seg);
    assert(ds =~= s@.skip(i as int));
    if i == n {
        return None;
    }
    let first = i;
    let mut acc: i128 = 0;
    while i < n
        invariant
            first <= i <= n,
            n == s@.len(),
            ds =~= s@.skip(first as int),
            seg == s@.skip(start as int),
            ds == unsigned_part(seg),
            neg == (seg.len() > 0 && seg[0] == '-'),
            all_digits(ds.take(i - first)),
            acc == digits_value(ds.take(i - first)),
            0 <= acc <= 9223372036854775808,
        decreases n - i,
    {
        let c = s.get_char(i);
        if c < '0' || c > '9' {
            assert(ds[i - first] == c);
            assert(!is_digit(ds[i - first]));
            return None;
        }
        let ghost prev = ds.take(i - first);
        let digit = (c as u32 - '0' as u32) as i128;
        acc = acc * 10 + digit;
        i = i + 1;
        proof {
            let cur = ds.take(i - first);
            assert(cur.drop_last() =~= prev);
            assert(all_digits(cur)) by {
                assert forall|j: int| 0 <= j < cur.len() implies is_digit(#[trigger] cur[j]) by {
                    if j < prev.len() {
                        assert(cur[j] == prev[j]);
                    }
                }
            }
        }
        if acc > 9223372036854775808 {
            proof {
                if all_digits(ds) {
                    lemma_digits_prefix(ds, i - first);
                }
            }
            return None;
        }
    }
    assert(ds.take(i - first) =~= ds);
    if neg {
        Some((0 - acc) as i64)
    } else if acc <= 9223372036854775807 {
        Some(acc as i64)
    } else {
        None
    }
}

/// Whether `s` starts with the characters of `lit`.
fn starts_with(s: &str, lit: &str) -> (r: bool)
    ensures
        r == (lit@.len() <= s@.len() && s@.take(lit@.len() as int) == lit@),
{
    let n = lit.unicode_len();
    if n > s.unicode_len() {
        return false;
    }
    let mut i: usize = 0;
    while i < n
        invariant
            i <= n,
            n == lit@.len(),
            n <= s@.len(),
            s@.take(i as int) == lit@.take(i as int),
        decreases n - i,
    {
        if s.get_char(i) != lit.get_char(i) {
            assert(s@.take(n as int)[i as int] != lit@[i as int]);
            return false;
        }
        i = i + 1;
        assert(s@.take(i as int) =~= lit@.take(i as int));
    }
    assert(lit@.take(n as int) =~= lit@);
    true
}

impl Route {

    /// The method this route is requested with.
    pub fn method(&self) -> (r: Method)
        ensures
            r == method_of(*self),
    {
        match self {
            Route::List => Method::Get,
            Route::Create => Method::Post,
            Route::Read(_) => Method::Get,
            Route::Update(_) => Method::Put,
            Route::Delete(_) => Method::Delete,
        }
    }

    /// The path this route is requested at: `/v1/todos`, or `/v1/todos/`
    /// followed by the id in decimal.
    pub fn path(&self) -> (r: String)
        ensures
            r@ == path_of(*self),
    {
        proof {
            reveal_strlit("/v1/todos");
            reveal_strlit("/v1/todos/");
            reveal_strlit("-");
        }
        match self {
            Route::List | Route::Create => {
                let r = String::from_str("/v1/todos");
                assert(r@ =~= collection_path());
                r
            },
            Route::Read(id) | Route::Update(id) | Route::Delete(id) => {
                let id = *id;
                let mut r = String::from_str("/v1/todos/");
                assert(r@ =~= item_prefix());
                if id < 0 {
                    r.append("-");
                    let magnitude = (0 - (id as i128)) as u64;
                    push_decimal(&mut r, magnitude);
                    assert(r@ =~= item_prefix() + id_text(id));
                } else {
                    push_decimal(&mut r, id as u64);
                    assert(r@ =~= item_prefix() + id_text(id));
                }
                r
            },
        }
    }
    /// The route that `method` on `path` names, or `None` where the service
    /// has no such route. Paths are `/v1/todos` (list with `GET`, create with
    /// `POST`) and `/v1/todos/<id>` (read with `GET`, update with `PUT`,
    /// delete with `DELETE`).
    pub fn parse(method: Method, path: &str) -> (r: Option<Route>)
        ensures
            r == route_of(method, path@),
    {
        proof {
            reveal_strlit("/v1/todos");
            reveal_strlit("/v1/todos/");
        }
        assert("/v1/todos"@ =~= collection_path());
        assert("/v1/todos/"@ =~= item_prefix());
        let n = path.unicode_len();
        if n == 9 && starts_with(path, "/v1/todos") {
            assert(path@ =~= collection_path());
            return match method {
                Method::Get => Some(Route::List),
                Method::Post => Some(Route::Create),
                _ => None,
            };
        }
        assert(path@ != collection_path()) by {
            if path@ == collection_path() {
                assert(path@.take(9) =~= path@);
            }
        }
        if n > 10 && starts_with(path, "/v1/todos/") {
            match parse_id(path, 10) {
                Some(id) => match method {
                    Method::Get => Some(Route::Read(id)),
                    Method::Put => Some(Route::Update(id)),
                    Method::Delete => Some(Route::Delete(id)),
                    _ => None,
                },
                None => None,
            }
        } else {
            None
        }
    }
}

} // verus!
