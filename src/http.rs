use vstd::prelude::*;

verus! {

/// What the server answers to a request, decided by its request line.
#[derive(Clone, Copy, Debug, PartialEq, Eq, Structural)]
pub enum Route {
    /// `GET /`: the index page.
    Index,
    /// `GET /sleep`: the index page, after a deliberate delay.
    Sleep,
    /// Anything else: the not-found page.
    NotFound,
}

/// `GET / HTTP/1.1\r\n`
pub open spec fn index_line() -> Seq<u8> {
    seq![
        'G' as u8, 'E' as u8, 'T' as u8, ' ' as u8, '/' as u8, ' ' as u8, 'H' as u8, 'T' as u8,
        'T' as u8, 'P' as u8, '/' as u8, '1' as u8, '.' as u8, '1' as u8, '\r' as u8, '\n' as u8,
    ]
}

/// `GET /sleep HTTP/1.1\r\n`
pub open spec fn sleep_line() -> Seq<u8> {
    seq![
        'G' as u8, 'E' as u8, 'T' as u8, ' ' as u8, '/' as u8, 's' as u8, 'l' as u8, 'e' as u8,
        'e' as u8, 'p' as u8, ' ' as u8, 'H' as u8, 'T' as u8, 'T' as u8, 'P' as u8, '/' as u8,
        '1' as u8, '.' as u8, '1' as u8, '\r' as u8, '\n' as u8,
    ]
}

/// `HTTP/1.1 200 OK`
pub open spec fn ok_status() -> Seq<u8> {
    seq![
        'H' as u8, 'T' as u8, 'T' as u8, 'P' as u8, '/' as u8, '1' as u8, '.' as u8, '1' as u8,
        ' ' as u8, '2' as u8, '0' as u8, '0' as u8, ' ' as u8, 'O' as u8, 'K' as u8,
    ]
}

/// `HTTP/1.1 404 NOT FOUND`
pub open spec fn not_found_status() -> Seq<u8> {
    seq![
        'H' as u8, 'T' as u8, 'T' as u8, 'P' as u8, '/' as u8, '1' as u8, '.' as u8, '1' as u8,
        ' ' as u8, '4' as u8, '0' as u8, '4' as u8, ' ' as u8, 'N' as u8, 'O' as u8, 'T' as u8,
        ' ' as u8, 'F' as u8, 'O' as u8, 'U' as u8, 'N' as u8, 'D' as u8,
    ]
}

/// `\r\nContent-Length: `, between the status line and the body's length.
pub open spec fn length_header() -> Seq<u8> {
    seq![
        '\r' as u8, '\n' as u8, 'C' as u8, 'o' as u8, 'n' as u8, 't' as u8, 'e' as u8, 'n' as u8,
        't' as u8, '-' as u8, 'L' as u8, 'e' as u8, 'n' as u8, 'g' as u8, 't' as u8, 'h' as u8,
        ':' as u8, ' ' as u8,
    ]
}

/// `\r\n\r\n`, which ends the head of a response.
pub open spec fn head_end() -> Seq<u8> {
    seq!['\r' as u8, '\n' as u8, '\r' as u8, '\n' as u8]
}

/// `p` is a prefix of `s`.
pub open spec fn is_prefix(p: Seq<u8>, s: Seq<u8>) -> bool {
    p.len() <= s.len() && s.subrange(0, p.len() as int) == p
}

/// The route a request takes: the index line wins over the sleep line, and
/// anything that starts with neither is not found.
pub open spec fn route_of(request: Seq<u8>) -> Route {
    if is_prefix(index_line(), request) {
        Route::Index
    } else if is_prefix(sleep_line(), request) {
        Route::Sleep
    } else {
        Route::NotFound
    }
}

/// The status line that answers a route.
pub open spec fn status_of(r: Route) -> Seq<u8> {
    match r {
        Route::NotFound => not_found_status(),
        _ => ok_status(),
    }
}

/// The decimal digits of `n`, most significant first, in ASCII.
pub open spec fn decimal(n: nat) -> Seq<u8>
    decreases n,
{
    if n < 10 {
        seq![(48 + n) as u8]
    } else {
        decimal(n / 10).push((48 + n % 10) as u8)
    }
}

/// A whole response: status line, the body's length in bytes, and the body.
pub open spec fn response_of(status: Seq<u8>, body: Seq<u8>) -> Seq<u8> {
    status + length_header() + decimal(body.len()) + head_end() + body
}

fn index_line_bytes() -> (r: Vec<u8>)
    ensures
        r@ == index_line(),
{
    let r = vec![
        'G' as u8, 'E' as u8, 'T' as u8, ' ' as u8, '/' as u8, ' ' as u8, 'H' as u8, 'T' as u8,
        'T' as u8, 'P' as u8, '/' as u8, '1' as u8, '.' as u8, '1' as u8, '\r' as u8, '\n' as u8,
    ];
    assert(r@ =~= index_line());
    r
}

fn sleep_line_bytes() -> (r: Vec<u8>)
    ensures
        r@ == sleep_line(),
{
    let r = vec![
        'G' as u8, 'E' as u8, 'T' as u8, ' ' as u8, '/' as u8, 's' as u8, 'l' as u8, 'e' as u8,
        'e' as u8, 'p' as u8, ' ' as u8, 'H' as u8, 'T' as u8, 'T' as u8, 'P' as u8, '/' as u8,
        '1' as u8, '.' as u8, '1' as u8, '\r' as u8, '\n' as u8,
    ];
    assert(r@ =~= sleep_line());
    r
}

/// Whether `s` starts with `p`.
pub fn starts_with(s: &[u8], p: &[u8]) -> (r: bool)
    ensures
        r == is_prefix(p@, s@),
{
    if p.len() > s.len() {
        return false;
    }
    let mut i: usize = 0;
    while i < p.len()
        invariant
            i <= p.len() <= s.len(),
            s@.subrange(0, i as int) == p@.subrange(0, i as int),
        decreases p.len() - i,
    {
        if s[i] != p[i] {
            assert(s@.subrange(0, p@.len() as int)[i as int] != p@[i as int]);
            return false;
        }
        i = i + 1;
        assert(s@.subrange(0, i as int) =~= p@.subrange(0, i as int));
    }
    assert(p@.subrange(0, i as int) =~= p@);
    true
}

/// Chooses the answer to a request from the start of its bytes.
pub fn route(request: &[u8]) -> (r: Route)
    ensures
        r == route_of(request@),
{
    let index = index_line_bytes();
    if starts_with(request, index.as_slice()) {
        return Route::Index;
    }
    let sleep = sleep_line_bytes();
    if starts_with(request, sleep.as_slice()) {
        Route::Sleep
    } else {
        Route::NotFound
    }
}

impl Route {
    /// The status line of the answer.
    pub fn status_line(&self) -> (r: Vec<u8>)
        ensures
            r@ == status_of(*self),
    {
        match self {
            Route::NotFound => {
                let r = vec![
                    'H' as u8, 'T' as u8, 'T' as u8, 'P' as u8, '/' as u8, '1' as u8, '.' as u8,
                    '1' as u8, ' ' as u8, '4' as u8, '0' as u8, '4' as u8, ' ' as u8, 'N' as u8,
                    'O' as u8, 'T' as u8, ' ' as u8, 'F' as u8, 'O' as u8, 'U' as u8, 'N' as u8,
                    'D' as u8,
                ];
                assert(r@ =~= not_found_status());
                r
            },
            _ => {
                let r = vec![
                    'H' as u8, 'T' as u8, 'T' as u8, 'P' as u8, '/' as u8, '1' as u8, '.' as u8,
                    '1' as u8, ' ' as u8, '2' as u8, '0' as u8, '0' as u8, ' ' as u8, 'O' as u8,
                    'K' as u8,
                ];
                assert(r@ =~= ok_status());
                r
            },
        }
    }

    /// The file whose contents form the body of the answer.
    pub fn content_path(&self) -> (r: &'static str)
        ensures
            *self == Route::NotFound ==> r@ == "404.html"@,
            *self != Route::NotFound ==> r@ == "index.html"@,
    {
        match self {
            Route::NotFound => "404.html",
            _ => "index.html",
        }
    }

    /// Whether the answer is held back on purpose before it is sent.
    pub fn is_delayed(&self) -> (r: bool)
        ensures
            r == (*self == Route::Sleep),
    {
        match self {
            Route::Sleep => true,
            _ => false,
        }
    }
}

/// Appends the decimal digits of `n` to `out`.
pub fn push_decimal(out: &mut Vec<u8>, n: usize)
    ensures
        final(out)@ == old(out)@ + decimal(n as nat),
    decreases n,
{
    if n >= 10 {
        push_decimal(out, n / 10);
    }
    out.push((48 + n % 10) as u8);
    assert(out@ =~= old(out)@ + decimal(n as nat));
}

fn push_all(out: &mut Vec<u8>, s: &[u8])
    ensures
        final(out)@ == old(out)@ + s@,
{
    let mut i: usize = 0;
    while i < s.len()
        invariant
            i <= s.len(),
            out@ == old(out)@ + s@.subrange(0, i as int),
        decreases s.len() - i,
    {
        out.push(s[i]);
        i = i + 1;
        assert(out@ =~= old(out)@ + s@.subrange(0, i as int));
    }
    assert(s@.subrange(0, i as int) =~= s@);
}

/// Frames `body` as a response with the given status line.
pub fn response(status: &[u8], body: &[u8]) -> (r: Vec<u8>)
    ensures
        r@ == response_of(status@, body@),
{
    let mut r: Vec<u8> = Vec::new();
    push_all(&mut r, status);
    let header = vec![
        '\r' as u8, '\n' as u8, 'C' as u8, 'o' as u8, 'n' as u8, 't' as u8, 'e' as u8, 'n' as u8,
        't' as u8, '-' as u8, 'L' as u8, 'e' as u8, 'n' as u8, 'g' as u8, 't' as u8, 'h' as u8,
        ':' as u8, ' ' as u8,
    ];
    assert(header@ =~= length_header());
    push_all(&mut r, header.as_slice());
    push_decimal(&mut r, body.len());
    let end = vec!['\r' as u8, '\n' as u8, '\r' as u8, '\n' as u8];
    assert(end@ =~= head_end());
    push_all(&mut r, end.as_slice());
    push_all(&mut r, body);
    assert(r@ =~= response_of(status@, body@));
    r
}

} // verus!
