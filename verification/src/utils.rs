//! Small string helpers and the synthetic-response builder shared by the
//! engine and the plugins.

use vstd::prelude::*;
use vstd::string::*;

verus! {

/// The decimal digit `d` as a character.
pub open spec fn spec_digit_char(d: int) -> char {
    if d == 0 {
        '0'
    } else if d == 1 {
        '1'
    } else if d == 2 {
        '2'
    } else if d == 3 {
        '3'
    } else if d == 4 {
        '4'
    } else if d == 5 {
        '5'
    } else if d == 6 {
        '6'
    } else if d == 7 {
        '7'
    } else if d == 8 {
        '8'
    } else {
        '9'
    }
}

/// The decimal rendering of a non-negative number, without leading zeros.
pub open spec fn spec_decimal(n: int) -> Seq<char>
    decreases n,
{
    if n < 10 {
        seq![spec_digit_char(n)]
    } else {
        spec_decimal(n / 10).push(spec_digit_char(n % 10))
    }
}

fn digit_str(d: u64) -> (r: &'static str)
    requires
        d < 10,
    ensures
        r@ == seq![spec_digit_char(d as int)],
{
    if d == 0 {
        proof {
            reveal_strlit("0");
        }
        assert("0"@ =~= seq![spec_digit_char(0)]);
        "0"
    } else if d == 1 {
        proof {
            reveal_strlit("1");
        }
        assert("1"@ =~= seq![spec_digit_char(1)]);
        "1"
    } else if d == 2 {
        proof {
            reveal_strlit("2");
        }
        assert("2"@ =~= seq![spec_digit_char(2)]);
        "2"
    } else if d == 3 {
        proof {
            reveal_strlit("3");
        }
        assert("3"@ =~= seq![spec_digit_char(3)]);
        "3"
    } else if d == 4 {
        proof {
            reveal_strlit("4");
        }
        assert("4"@ =~= seq![spec_digit_char(4)]);
        "4"
    } else if d == 5 {
        proof {
            reveal_strlit("5");
        }
        assert("5"@ =~= seq![spec_digit_char(5)]);
        "5"
    } else if d == 6 {
        proof {
            reveal_strlit("6");
        }
        assert("6"@ =~= seq![spec_digit_char(6)]);
        "6"
    } else if d == 7 {
        proof {
            reveal_strlit("7");
        }
        assert("7"@ =~= seq![spec_digit_char(7)]);
        "7"
    } else if d == 8 {
        proof {
            reveal_strlit("8");
        }
        assert("8"@ =~= seq![spec_digit_char(8)]);
        "8"
    } else {
        proof {
            reveal_strlit("9");
        }
        assert("9"@ =~= seq![spec_digit_char(9)]);
        "9"
    }
}

/// Renders a number in decimal.
pub fn u64_to_string(n: u64) -> (r: String)
    ensures
        r@ == spec_decimal(n as int),
    decreases n,
{
    if n < 10 {
        digit_str(n).to_owned()
    } else {
        let mut s = u64_to_string(n / 10);
        s.append(digit_str(n % 10));
        s
    }
}

/// A synthetic response before it reaches the transport: status line,
/// headers in emission order, and an optional body.
pub struct ResponseParts {
    pub status: u16,
    pub headers: Vec<(String, String)>,
    pub body: Option<Vec<u8>>,
}

/// Header pairs as character sequences.
pub open spec fn spec_header_views(hs: Seq<(String, String)>) -> Seq<(Seq<char>, Seq<char>)> {
    hs.map(|i: int, p: (String, String)| (p.0@, p.1@))
}

/// Whether some header in `hs` is called `name`.
pub open spec fn spec_has_header(hs: Seq<(Seq<char>, Seq<char>)>, name: Seq<char>) -> bool {
    exists|i: int| 0 <= i < hs.len() && hs[i].0 == name
}

/// The length of an optional body, in bytes.
pub open spec fn spec_body_len(body: Option<Seq<u8>>) -> int {
    match body {
        Some(b) => b.len() as int,
        None => 0,
    }
}

/// The headers of a synthetic response: `content-length` first, then the
/// given headers, then a `content-type` — unless the given headers already
/// carry one, which takes precedence.
pub open spec fn spec_response_headers(
    given: Seq<(Seq<char>, Seq<char>)>,
    content_type: Seq<char>,
    body_len: int,
) -> Seq<(Seq<char>, Seq<char>)> {
    let base = seq![("content-length"@, spec_decimal(body_len))] + given;
    if spec_has_header(given, "content-type"@) {
        base
    } else {
        base.push(("content-type"@, content_type))
    }
}

/// Whether `r` is the synthetic response for the given pieces, with
/// `text/plain` as the fallback content type.
pub open spec fn spec_response(
    r: ResponseParts,
    status: u16,
    content_type: Option<Seq<char>>,
    body: Option<Seq<u8>>,
    given: Seq<(Seq<char>, Seq<char>)>,
) -> bool {
    &&& r.status == status
    &&& (match body {
        Some(b) => r.body matches Some(rb) && rb@ == b,
        None => r.body is None,
    })
    &&& spec_header_views(r.headers@) == spec_response_headers(
        given,
        match content_type {
            Some(ct) => ct,
            None => "text/plain"@,
        },
        spec_body_len(body),
    )
}

/// Assembles a synthetic response: `content-length` is always set, and
/// `content-type` falls back to `text/plain` when the caller's headers do
/// not pick one.
pub fn build_response(
    status: u16,
    content_type: Option<&str>,
    body: Option<Vec<u8>>,
    headers: Option<Vec<(String, String)>>,
) -> (r: ResponseParts)
    ensures
        spec_response(
            r,
            status,
            match content_type {
                Some(ct) => Some(ct@),
                None => None,
            },
            match body {
                Some(b) => Some(b@),
                None => None,
            },
            spec_header_views(
                match headers {
                    Some(h) => h@,
                    None => Seq::empty(),
                },
            ),
        ),
{
    let cl: usize = match &body {
        Some(b) => b.len(),
        None => 0,
    };
    let given: Vec<(String, String)> = match headers {
        Some(h) => h,
        None => Vec::new(),
    };
    let n: usize = given.len();
    let mut has_ct: bool = false;
    for i in 0..n
        invariant
            n == given@.len(),
            has_ct == (exists|j: int| 0 <= j < i && #[trigger] given@[j].0@ == "content-type"@),
    {
        if str_eq(given[i].0.as_str(), "content-type") {
            has_ct = true;
        }
    }
    proof {
        let gv = spec_header_views(given@);
        assert(forall|j: int|
            0 <= j < given@.len() ==> #[trigger] gv[j] == (given@[j].0@, given@[j].1@));
        if has_ct {
            let j = choose|j: int| 0 <= j < n && #[trigger] given@[j].0@ == "content-type"@;
            assert(gv[j].0 == "content-type"@);
        }
        if spec_has_header(gv, "content-type"@) {
            let j = choose|j: int| 0 <= j < gv.len() && #[trigger] gv[j].0 == "content-type"@;
            assert(given@[j].0@ == "content-type"@);
        }
        assert(has_ct == spec_has_header(gv, "content-type"@));
    }
    let mut hs: Vec<(String, String)> = Vec::new();
    hs.push(("content-length".to_owned(), u64_to_string(cl as u64)));
    let m: usize = given.len();
    for i in 0..m
        invariant
            m == given@.len(),
            hs@.len() == i + 1,
            hs@[0].0@ == "content-length"@,
            hs@[0].1@ == spec_decimal(cl as int),
            forall|j: int|
                0 <= j < i ==> (#[trigger] hs@[j + 1].0@ == given@[j].0@ && hs@[j + 1].1@
                    == given@[j].1@),
    {
        hs.push((given[i].0.clone(), given[i].1.clone()));
    }
    let ghost hs0 = hs@;
    if !has_ct {
        let ct: &str = match content_type {
            Some(c) => c,
            None => "text/plain",
        };
        hs.push(("content-type".to_owned(), ct.to_owned()));
        assert(hs@ == hs0.push((hs@.last().0, hs@.last().1)));
    }
    let r = ResponseParts { status, headers: hs, body };
    proof {
        assert(forall|j: int| 0 <= j < hs0.len() ==> #[trigger] r.headers@[j] == hs0[j]);
    }
    proof {
        let gv = spec_header_views(given@);
        let hv = spec_header_views(r.headers@);
        let want = spec_response_headers(
            gv,
            match content_type {
                Some(ct) => ct@,
                None => "text/plain"@,
            },
            cl as int,
        );
        assert(forall|j: int|
            0 <= j < r.headers@.len() ==> #[trigger] hv[j] == (
                r.headers@[j].0@,
                r.headers@[j].1@,
            ));
        assert(forall|j: int|
            0 <= j < given@.len() ==> #[trigger] gv[j] == (given@[j].0@, given@[j].1@));
        assert(hv.len() == want.len());
        assert forall|j: int| 0 <= j < hv.len() implies hv[j] == want[j] by {
            let base = seq![("content-length"@, spec_decimal(cl as int))] + gv;
            if j == 0 {
                assert(want[0] == base[0]);
                assert(hv[0] == ("content-length"@, spec_decimal(cl as int)));
            } else if j < 1 + m {
                assert(want[j] == base[j]);
                assert(base[j] == gv[j - 1]);
                assert(hv[j] == (r.headers@[j].0@, r.headers@[j].1@));
                assert(r.headers@[j] == hs0[j]);
                assert(hs0[j - 1 + 1].0@ == given@[j - 1].0@ && hs0[j - 1 + 1].1@ == given@[j
                    - 1].1@);
            } else {
                assert(!spec_has_header(gv, "content-type"@));
                assert(want[j] == (
                    "content-type"@,
                    match content_type {
                        Some(ct) => ct@,
                        None => "text/plain"@,
                    },
                ));
            }
        }
        assert(hv =~= want);
    }
    r
}

/// The request header bound for the upstream, as plain values.
pub struct RequestHeaderParts {
    pub method: String,
    pub uri: String,
    pub headers: Vec<(String, String)>,
}

/// Copies a byte vector.
pub fn clone_bytes(v: &Vec<u8>) -> (r: Vec<u8>)
    ensures
        r@ == v@,
{
    let mut r: Vec<u8> = Vec::new();
    let n: usize = v.len();
    for i in 0..n
        invariant
            n == v@.len(),
            r@ == v@.subrange(0, i as int),
    {
        r.push(v[i]);
        assert(r@ =~= v@.subrange(0, i + 1));
    }
    assert(v@.subrange(0, n as int) =~= v@);
    r
}

/// Copies a header list.
pub fn clone_headers(v: &Vec<(String, String)>) -> (r: Vec<(String, String)>)
    ensures
        r@ == v@,
{
    let mut r: Vec<(String, String)> = Vec::new();
    let n: usize = v.len();
    for i in 0..n
        invariant
            n == v@.len(),
            r@ == v@.subrange(0, i as int),
    {
        let p = (v[i].0.clone(), v[i].1.clone());
        assert(p == v@[i as int]);
        r.push(p);
        assert(r@ =~= v@.subrange(0, i + 1));
    }
    assert(v@.subrange(0, n as int) =~= v@);
    r
}

/// Character-for-character string equality.
pub fn str_eq(a: &str, b: &str) -> (r: bool)
    ensures
        r == (a@ == b@),
{
    let alen = a.unicode_len();
    let blen = b.unicode_len();
    if alen != blen {
        assert(a@ != b@);
        return false;
    }
    let mut i: usize = 0;
    while i < alen
        invariant
            alen == a@.len(),
            blen == b@.len(),
            alen == blen,
            i <= alen,
            forall|j: int| 0 <= j < i ==> a@[j] == b@[j],
        decreases alen - i,
    {
        if a.get_char(i) != b.get_char(i) {
            return false;
        }
        i += 1;
    }
    assert(a@ =~= b@);
    true
}

} // verus!
