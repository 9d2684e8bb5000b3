//! Path handling for the exported `file://` URIs.
//!
//! The library models a filesystem path as text with `/` separators; a
//! Windows-style target root such as `C:/Users/x` is text whose first
//! segment is the drive.  A path is read as its non-empty segments:
//! leading, trailing and repeated separators carry no information.
//! Rebasing replaces a source-root segment prefix by the target root's
//! segments.  Encoding percent-escapes each segment separately — never the
//! separators — and joins them onto `file://localhost/`.

use vstd::prelude::*;

use vstd::string::StringSliceAdditionalSpecFns;
use vstd::utf8::encode_utf8;

use crate::text::digit_char;
use crate::text::str_eq;

verus! {

/// The index of the first `/` in `s`, or `-1` if there is none.
pub open spec fn find_slash(s: Seq<char>) -> int
    decreases s.len(),
{
    if s.len() == 0 {
        -1
    } else if s[0] == '/' {
        0
    } else {
        let r = find_slash(s.drop_first());
        if r == -1 {
            -1
        } else {
            r + 1
        }
    }
}

/// What [`find_slash`] finds: the first separator, if any.
pub proof fn lemma_find_slash(s: Seq<char>)
    ensures
        -1 <= find_slash(s) < s.len(),
        find_slash(s) == -1 ==> forall|j: int| 0 <= j < s.len() ==> s[j] != '/',
        find_slash(s) >= 0 ==> s[find_slash(s)] == '/' && (forall|j: int|
            0 <= j < find_slash(s) ==> s[j] != '/'),
    decreases s.len(),
{
    if s.len() > 0 && s[0] != '/' {
        let t = s.drop_first();
        lemma_find_slash(t);
        assert(forall|j: int| 0 <= j < t.len() ==> t[j] == s[j + 1]);
        if find_slash(s) == -1 {
            assert(find_slash(t) == -1);
            assert forall|j: int| 0 <= j < s.len() implies s[j] != '/' by {
                if j > 0 {
                    assert(t[j - 1] != '/');
                    assert(t[j - 1] == s[j]);
                }
            }
        } else {
            let f = find_slash(s);
            assert(find_slash(t) == f - 1);
            assert(1 <= f < s.len());
            assert(s[f] == t[f - 1]);
            assert forall|j: int| 0 <= j < f implies s[j] != '/' by {
                if j > 0 {
                    assert(t[j - 1] != '/');
                    assert(t[j - 1] == s[j]);
                }
            }
        }
    }
}

/// The non-empty segments of `s`, split on `/`.
pub open spec fn spec_segments(s: Seq<char>) -> Seq<Seq<char>>
    decreases s.len(),
{
    if s.len() == 0 {
        Seq::empty()
    } else if s[0] == '/' {
        spec_segments(s.drop_first())
    } else {
        let i = find_slash(s);
        if i < 0 {
            seq![s]
        } else {
            proof {
                lemma_find_slash(s);
            }
            seq![s.take(i)] + spec_segments(s.skip(i))
        }
    }
}

/// The character sequences behind a sequence of string slices.
pub open spec fn str_views(ss: Seq<&str>) -> Seq<Seq<char>> {
    Seq::new(ss.len(), |k: int| ss[k]@)
}

/// Splits `s` into its non-empty segments.
#[verifier::loop_isolation(false)]
pub fn split_slashes<'a>(s: &'a str) -> (segs: Vec<&'a str>)
    ensures
        str_views(segs@) == spec_segments(s@),
{
    let n = s.unicode_len();
    let mut segs: Vec<&str> = Vec::new();
    let mut i: usize = 0;
    proof {
        assert(s@.skip(0) =~= s@);
        assert(str_views(segs@) =~= Seq::<Seq<char>>::empty());
    }
    while i < n
        invariant
            i <= n,
            spec_segments(s@) == str_views(segs@) + spec_segments(s@.skip(i as int)),
        decreases n - i,
    {
        let c = s.get_char(i);
        if c == '/' {
            proof {
                assert(s@.skip(i as int).drop_first() =~= s@.skip(i + 1));
            }
            i += 1;
        } else {
            let start = i;
            i += 1;
            while i < n && s.get_char(i) != '/'
                invariant
                    start < i <= n,
                    forall|j: int| start < j < i ==> s@[j] != '/',
                decreases n - i,
            {
                i += 1;
            }
            let seg = s.substring_char(start, i);
            let ghost old_views = str_views(segs@);
            segs.push(seg);
            proof {
                let t = s@.skip(start as int);
                lemma_find_slash(t);
                assert(t[0] == s@[start as int]);
                assert(forall|j: int| 0 < j < i - start ==> t[j] == s@[start + j] && t[j] != '/');
                if i < n {
                    assert(t[i - start] == s@[i as int]);
                    assert(find_slash(t) == i - start) by {
                        if find_slash(t) == -1 {
                            assert(t[i - start] != '/');
                        } else {
                            let f = find_slash(t);
                            if f < i - start {
                                assert(t[f] != '/');
                            } else if f > i - start {
                                assert(t[i - start] != '/');
                            }
                        }
                    }
                    assert(t.take(i - start) =~= s@.subrange(start as int, i as int));
                    assert(t.skip(i - start) =~= s@.skip(i as int));
                    assert(spec_segments(t) == seq![seg@] + spec_segments(s@.skip(i as int)));
                } else {
                    assert(find_slash(t) == -1) by {
                        if find_slash(t) >= 0 {
                            let f = find_slash(t);
                            assert(t[f] == '/');
                            if f == 0 {
                            } else {
                                assert(t[f] != '/');
                            }
                        }
                    }
                    assert(t =~= s@.subrange(start as int, n as int));
                    assert(spec_segments(t) == seq![seg@]);
                    assert(s@.skip(n as int) =~= Seq::<char>::empty());
                }
                assert(str_views(segs@) =~= old_views.push(seg@));
                assert(str_views(segs@) + spec_segments(s@.skip(i as int)) =~= old_views + (
                seq![seg@] + spec_segments(s@.skip(i as int))));
            }
        }
    }
    proof {
        assert(s@.skip(n as int) =~= Seq::<char>::empty());
        assert(str_views(segs@) + Seq::<Seq<char>>::empty() =~= str_views(segs@));
    }
    segs
}

/// Whether the segments `a` begin with the segments `b`.
pub open spec fn seq_starts_with(a: Seq<Seq<char>>, b: Seq<Seq<char>>) -> bool {
    b.len() <= a.len() && forall|k: int| 0 <= k < b.len() ==> a[k] == b[k]
}

/// Whether the segment list `a` begins with the segment list `b`.
#[verifier::loop_isolation(false)]
pub fn segs_start_with(a: &Vec<&str>, b: &Vec<&str>) -> (r: bool)
    ensures
        r == seq_starts_with(str_views(a@), str_views(b@)),
{
    if b.len() > a.len() {
        return false;
    }
    let mut k: usize = 0;
    while k < b.len()
        invariant
            k <= b@.len(),
            b@.len() <= a@.len(),
            forall|j: int| 0 <= j < k ==> str_views(a@)[j] == str_views(b@)[j],
        decreases b@.len() - k,
    {
        if !str_eq(a[k], b[k]) {
            proof {
                assert(str_views(a@)[k as int] != str_views(b@)[k as int]);
            }
            return false;
        }
        k += 1;
    }
    true
}

/// Rebasing a path under the source root onto the target root, then
/// stripping the target root again, reproduces the original relative
/// suffix exactly.
pub proof fn lemma_rebase_round_trip(
    path: Seq<Seq<char>>,
    source_root: Seq<Seq<char>>,
    target_root: Seq<Seq<char>>,
)
    requires
        seq_starts_with(path, source_root),
    ensures
        (target_root + path.skip(source_root.len() as int)).skip(target_root.len() as int)
            =~= path.skip(source_root.len() as int),
{
}

/// Whether the wire form of `b` must be escaped in a URI path segment:
/// every non-ASCII byte, the controls, and the reserved set of space,
/// quote, hash, angle brackets, question mark, backtick and braces.
pub open spec fn byte_needs_encoding(b: u8) -> bool {
    b >= 0x80 || b < 0x20 || b == 0x7f || b == 0x20 || b == 0x22 || b == 0x23 || b == 0x3c || b
        == 0x3e || b == 0x3f || b == 0x60 || b == 0x7b || b == 0x7d
}

/// The uppercase hexadecimal digit of `d` in `0..16`.
pub open spec fn hex_digit_char(d: nat) -> char {
    if d < 10 {
        digit_char(d)
    } else {
        (((d - 10) + 65) as u8) as char
    }
}

/// Percent-encoding of a byte sequence: an escaped byte becomes `%` and
/// two uppercase hexadecimal digits, any other byte passes through.
pub open spec fn percent_encode_bytes(bs: Seq<u8>) -> Seq<char>
    decreases bs.len(),
{
    if bs.len() == 0 {
        Seq::empty()
    } else {
        let b = bs[0];
        (if byte_needs_encoding(b) {
            seq!['%', hex_digit_char((b / 16) as nat), hex_digit_char((b % 16) as nat)]
        } else {
            seq![b as char]
        }) + percent_encode_bytes(bs.drop_first())
    }
}

/// Relies on percent_encoding's `percent_encode_byte`: the unconditional
/// escape of one byte, `%` followed by its two uppercase hexadecimal
/// digits.
#[verifier::external_body]
fn encode_byte(b: u8) -> (r: &'static str)
    ensures
        r@ == seq!['%', hex_digit_char((b / 16) as nat), hex_digit_char((b % 16) as nat)],
{
    percent_encoding::percent_encode_byte(b)
}

/// Whether `b` must be escaped; the executable form of
/// [`byte_needs_encoding`].
fn byte_is_reserved(b: u8) -> (r: bool)
    ensures
        r == byte_needs_encoding(b),
{
    b >= 0x80 || b < 0x20 || b == 0x7f || b == 0x20 || b == 0x22 || b == 0x23 || b == 0x3c || b
        == 0x3e || b == 0x3f || b == 0x60 || b == 0x7b || b == 0x7d
}

/// Appending one more byte extends the encoding by that byte's escape or
/// by the byte itself.
proof fn lemma_percent_push(bs: Seq<u8>, b: u8)
    ensures
        percent_encode_bytes(bs.push(b)) == percent_encode_bytes(bs) + (if byte_needs_encoding(b) {
            seq!['%', hex_digit_char((b / 16) as nat), hex_digit_char((b % 16) as nat)]
        } else {
            seq![b as char]
        }),
    decreases bs.len(),
{
    if bs.len() == 0 {
        assert(bs =~= Seq::<u8>::empty());
        assert(percent_encode_bytes(Seq::<u8>::empty()) =~= Seq::<char>::empty());
        assert(bs.push(b)[0] == b);
        assert(bs.push(b).drop_first() =~= Seq::<u8>::empty());
        assert(percent_encode_bytes(bs.push(b)) =~= percent_encode_bytes(bs) + (if byte_needs_encoding(b) {
            seq!['%', hex_digit_char((b / 16) as nat), hex_digit_char((b % 16) as nat)]
        } else {
            seq![b as char]
        }));
    } else {
        lemma_percent_push(bs.drop_first(), b);
        assert(bs.push(b).drop_first() =~= bs.drop_first().push(b));
        assert(bs.push(b)[0] == bs[0]);
        assert(percent_encode_bytes(bs.push(b)) =~= percent_encode_bytes(bs) + (if byte_needs_encoding(b) {
            seq!['%', hex_digit_char((b / 16) as nat), hex_digit_char((b % 16) as nat)]
        } else {
            seq![b as char]
        }));
    }
}

/// Percent-encodes one path segment, escaping exactly the bytes of
/// [`byte_needs_encoding`].
#[verifier::loop_isolation(false)]
fn percent_encode_segment(seg: &str) -> (r: String)
    ensures
        r@ == percent_encode_bytes(seg.spec_bytes()),
{
    let bytes = seg.as_bytes_vec();
    let mut out = String::new();
    let mut i: usize = 0;
    proof {
        assert(bytes@.take(0) =~= Seq::<u8>::empty());
        assert(out@ =~= percent_encode_bytes(bytes@.take(0)));
    }
    while i < bytes.len()
        invariant
            i <= bytes@.len(),
            out@ == percent_encode_bytes(bytes@.take(i as int)),
        decreases bytes@.len() - i,
    {
        let b = bytes[i];
        proof {
            lemma_percent_push(bytes@.take(i as int), b);
            assert(bytes@.take(i + 1) =~= bytes@.take(i as int).push(b));
        }
        if byte_is_reserved(b) {
            out.append(encode_byte(b));
        } else {
            crate::text::push_char(&mut out, b as char);
            proof {
                assert(out@ =~= percent_encode_bytes(bytes@.take(i as int)) + seq![b as char]);
            }
        }
        i += 1;
    }
    proof {
        assert(bytes@.take(bytes@.len() as int) =~= bytes@);
    }
    out
}

/// A sequence of bytes that need no escaping passes through
/// percent-encoding byte for byte.
pub proof fn lemma_percent_encode_identity(bs: Seq<u8>)
    requires
        forall|k: int| 0 <= k < bs.len() ==> !byte_needs_encoding(#[trigger] bs[k]),
    ensures
        percent_encode_bytes(bs) =~= Seq::new(bs.len(), |k: int| bs[k] as char),
    decreases bs.len(),
{
    if bs.len() > 0 {
        assert forall|k: int|
            0 <= k < bs.drop_first().len() implies !byte_needs_encoding(
            #[trigger] bs.drop_first()[k],
        ) by {
            assert(bs.drop_first()[k] == bs[k + 1]);
        }
        lemma_percent_encode_identity(bs.drop_first());
        assert(((bs[0] as char) as u8) == bs[0]);
    }
}

/// A character that percent-encoding may emit unescaped: plain ASCII that
/// itself needs no escaping.
pub open spec fn safe_uri_char(c: char) -> bool {
    (c as int) < 0x80 && !byte_needs_encoding(c as u8)
}

/// Every character percent-encoding emits is safe: in particular, no
/// reserved character — no space, quote, hash, bracket, question mark,
/// backtick or brace — ever appears in the encoded text.
pub proof fn lemma_percent_encode_safe(bs: Seq<u8>)
    ensures
        forall|j: int|
            0 <= j < percent_encode_bytes(bs).len() ==> safe_uri_char(
                #[trigger] percent_encode_bytes(bs)[j],
            ),
    decreases bs.len(),
{
    if bs.len() > 0 {
        lemma_percent_encode_safe(bs.drop_first());
        let b = bs[0];
        let tail = percent_encode_bytes(bs.drop_first());
        if byte_needs_encoding(b) {
            let head = seq!['%', hex_digit_char((b / 16) as nat), hex_digit_char((b % 16) as nat)];
            assert(percent_encode_bytes(bs) == head + tail);
            assert(safe_uri_char('%'));
            assert(safe_uri_char(hex_digit_char((b / 16) as nat)));
            assert(safe_uri_char(hex_digit_char((b % 16) as nat)));
            assert forall|j: int|
                0 <= j < percent_encode_bytes(bs).len() implies safe_uri_char(
                #[trigger] percent_encode_bytes(bs)[j],
            ) by {
                if j >= 3 {
                    assert(percent_encode_bytes(bs)[j] == tail[j - 3]);
                } else {
                    assert(percent_encode_bytes(bs)[j] == head[j]);
                }
            }
        } else {
            let head = seq![b as char];
            assert(percent_encode_bytes(bs) == head + tail);
            assert(((b as char) as u8) == b);
            assert(safe_uri_char(b as char));
            assert forall|j: int|
                0 <= j < percent_encode_bytes(bs).len() implies safe_uri_char(
                #[trigger] percent_encode_bytes(bs)[j],
            ) by {
                if j >= 1 {
                    assert(percent_encode_bytes(bs)[j] == tail[j - 1]);
                } else {
                    assert(percent_encode_bytes(bs)[j] == head[0]);
                }
            }
        }
    }
}

/// The encoded segments joined with `/`.
pub open spec fn spec_encoded_joined(segs: Seq<Seq<char>>) -> Seq<char>
    decreases segs.len(),
{
    if segs.len() == 0 {
        Seq::empty()
    } else if segs.len() == 1 {
        percent_encode_bytes(encode_utf8(segs[0]))
    } else {
        percent_encode_bytes(encode_utf8(segs[0])) + seq!['/'] + spec_encoded_joined(
            segs.drop_first(),
        )
    }
}

/// Appending one more segment extends the join by a separator (unless it
/// is the first) and the segment's encoding.
pub proof fn lemma_joined_push(segs: Seq<Seq<char>>, x: Seq<char>)
    ensures
        spec_encoded_joined(segs.push(x)) == if segs.len() == 0 {
            percent_encode_bytes(encode_utf8(x))
        } else {
            spec_encoded_joined(segs) + seq!['/'] + percent_encode_bytes(encode_utf8(x))
        },
    decreases segs.len(),
{
    if segs.len() == 0 {
        assert(segs.push(x)[0] == x);
        assert(segs.push(x).len() == 1);
    } else {
        lemma_joined_push(segs.drop_first(), x);
        assert(segs.push(x).drop_first() =~= segs.drop_first().push(x));
        assert(segs.push(x)[0] == segs[0]);
        if segs.len() == 1 {
            assert(spec_encoded_joined(segs) == percent_encode_bytes(encode_utf8(segs[0])));
        }
    }
}

/// Percent-encodes each segment and joins them onto `file://localhost/`.
#[verifier::loop_isolation(false)]
pub fn encode_url(segs: &Vec<&str>) -> (r: String)
    ensures
        r@ == "file://localhost/"@ + spec_encoded_joined(str_views(segs@)),
{
    let mut url = String::from_str("file://localhost/");
    let mut k: usize = 0;
    proof {
        assert(str_views(segs@).take(0) =~= Seq::<Seq<char>>::empty());
        assert(url@ =~= "file://localhost/"@ + spec_encoded_joined(str_views(segs@).take(0)));
    }
    while k < segs.len()
        invariant
            k <= segs@.len(),
            url@ == "file://localhost/"@ + spec_encoded_joined(str_views(segs@).take(k as int)),
        decreases segs@.len() - k,
    {
        if k > 0 {
            url.append("/");
            proof {
                reveal_strlit("/");
            }
        }
        let enc = percent_encode_segment(segs[k]);
        url.append(enc.as_str());
        proof {
            lemma_joined_push(str_views(segs@).take(k as int), segs@[k as int]@);
            assert(str_views(segs@).take(k + 1) =~= str_views(segs@).take(k as int).push(
                segs@[k as int]@,
            ));
            assert(url@ =~= "file://localhost/"@ + spec_encoded_joined(
                str_views(segs@).take(k + 1),
            ));
        }
        k += 1;
    }
    proof {
        assert(str_views(segs@).take(segs@.len() as int) =~= str_views(segs@));
    }
    url
}

/// Whether a segment list can name a concrete file: at least one segment
/// (the filename), and no relative `.` or `..` steps, which the library
/// does not resolve.
pub open spec fn segs_wf(segs: Seq<Seq<char>>) -> bool {
    segs.len() >= 1 && forall|k: int|
        0 <= k < segs.len() ==> #[trigger] segs[k] != "."@ && segs[k] != ".."@
}

/// Checks that a segment list can name a concrete file.
#[verifier::loop_isolation(false)]
pub fn check_segments(segs: &Vec<&str>) -> (r: bool)
    ensures
        r == segs_wf(str_views(segs@)),
{
    if segs.len() == 0 {
        return false;
    }
    let mut k: usize = 0;
    while k < segs.len()
        invariant
            k <= segs@.len(),
            forall|j: int|
                0 <= j < k ==> #[trigger] str_views(segs@)[j] != "."@ && str_views(segs@)[j]
                    != ".."@,
        decreases segs@.len() - k,
    {
        if str_eq(segs[k], ".") || str_eq(segs[k], "..") {
            proof {
                assert(str_views(segs@)[k as int] == segs@[k as int]@);
            }
            return false;
        }
        k += 1;
    }
    true
}

/// Whether the library reads `s` as an absolute path: rooted at `/`, or at
/// a drive letter such as `C:/`.
pub open spec fn spec_is_absolute(s: Seq<char>) -> bool {
    (s.len() >= 1 && s[0] == '/') || (s.len() >= 3 && (('A' <= s[0] && s[0] <= 'Z') || ('a' <= s[0]
        && s[0] <= 'z')) && s[1] == ':' && s[2] == '/')
}

/// Checks whether `s` is an absolute path.
pub fn is_absolute_path(s: &str) -> (r: bool)
    ensures
        r == spec_is_absolute(s@),
{
    let n = s.unicode_len();
    if n >= 1 && s.get_char(0) == '/' {
        return true;
    }
    if n >= 3 {
        let c0 = s.get_char(0);
        let alpha = ('A' <= c0 && c0 <= 'Z') || ('a' <= c0 && c0 <= 'z');
        if alpha && s.get_char(1) == ':' && s.get_char(2) == '/' {
            return true;
        }
    }
    false
}

} // verus!
