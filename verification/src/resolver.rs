//! From the path of a request to a place under the served root: the path
//! is percent-decoded, held to the root's subtree, and what is found there
//! decides how the request is answered.

use vstd::prelude::*;
use vstd::string::StringSliceAdditionalSpecFns;
use vstd::utf8::{decode_utf8, encode_utf8, valid_utf8};
use crate::text::{chars_are, chars_of, push_str, split, split_chars, string_from_utf8, string_of};

verus! {

/// The value of a hexadecimal digit given as a byte, in either case.
pub open spec fn hex_value(b: u8) -> Option<nat> {
    if 48 <= b <= 57 {
        Some((b - 48) as nat)
    } else if 97 <= b <= 102 {
        Some((b - 87) as nat)
    } else if 65 <= b <= 70 {
        Some((b - 55) as nat)
    } else {
        None
    }
}

/// Whether `bytes` opens with a percent sign and two hexadecimal digits.
pub open spec fn starts_with_escape(bytes: Seq<u8>) -> bool {
    bytes.len() >= 3 && bytes[0] == 37 && hex_value(bytes[1]) is Some && hex_value(bytes[2]) is Some
}

/// Percent-decoding: each percent sign followed by two hexadecimal digits
/// becomes the byte that the digits write; every other byte stands for
/// itself, a percent sign without two such digits too.
pub open spec fn percent_decoded(bytes: Seq<u8>) -> Seq<u8>
    decreases bytes.len(),
{
    if bytes.len() == 0 {
        Seq::<u8>::empty()
    } else if starts_with_escape(bytes) {
        seq![(hex_value(bytes[1])->0 * 16 + hex_value(bytes[2])->0) as u8] + percent_decoded(
            bytes.skip(3),
        )
    } else {
        seq![bytes[0]] + percent_decoded(bytes.skip(1))
    }
}

/// The path that a request names: its percent-decoding read as UTF-8, or
/// the empty path where that is not UTF-8.
pub open spec fn decoded_path(raw: Seq<u8>) -> Seq<char> {
    if valid_utf8(percent_decoded(raw)) {
        decode_utf8(percent_decoded(raw))
    } else {
        Seq::<char>::empty()
    }
}

/// How far below the root a walk stands after one more segment. An empty
/// segment and `.` stay in place, `..` goes up, any other name goes down.
/// `None` means that the walk has left the root, and it stays so.
pub open spec fn depth_after(depth: Option<nat>, segment: Seq<char>) -> Option<nat> {
    match depth {
        None => None,
        Some(d) => if segment.len() == 0 || segment == seq!['.'] {
            Some(d)
        } else if segment == seq!['.', '.'] {
            if d == 0 {
                None
            } else {
                Some((d - 1) as nat)
            }
        } else {
            Some(d + 1)
        },
    }
}

/// How far below the root a walk along `segments` ends, or `None` if it
/// leaves the root on the way.
pub open spec fn depth_of(segments: Seq<Seq<char>>) -> Option<nat>
    decreases segments.len(),
{
    if segments.len() == 0 {
        Some(0)
    } else {
        depth_after(depth_of(segments.drop_last()), segments.last())
    }
}

/// The depth of a relative path below the root. A path that begins with a
/// slash names a place of its own and has none, nor has one that climbs
/// above the root at any point.
pub open spec fn path_depth(path: Seq<char>) -> Option<nat> {
    if path.len() > 0 && path[0] == '/' {
        None
    } else {
        depth_of(split(path, '/'))
    }
}

/// A request path that stays under the root.
pub struct Resolution {
    /// The decoded path, relative to the root, as the request wrote it.
    pub relative: String,
    /// Whether the path names the root itself.
    pub at_root: bool,
}

/// The place of a relative path under `root`: the two joined by a slash,
/// unless `root` ends in one or is empty.
pub open spec fn joined(root: Seq<char>, relative: Seq<char>) -> Seq<char> {
    if root.len() == 0 {
        relative
    } else if root.last() == '/' {
        root + relative
    } else {
        root + seq!['/'] + relative
    }
}

impl Resolution {
    /// The candidate path in the file system for this resolution under
    /// `root`.
    pub fn under(&self, root: &str) -> (path: String)
        ensures
            path@ == joined(root@, self.relative@),
            root@.is_prefix_of(path@),
    {
        let base = chars_of(root);
        let mut out: Vec<char> = Vec::new();
        push_str(&mut out, root);
        if base.len() > 0 && base[base.len() - 1] != '/' {
            out.push('/');
        }
        push_str(&mut out, self.relative.as_str());
        proof {
            assert(out@ =~= joined(root@, self.relative@));
            if root@.len() > 0 {
                assert(out@.subrange(0, root@.len() as int) =~= root@);
            }
        }
        string_of(out.as_slice())
    }
}

/// How a request for a path is answered.
#[derive(Clone, Copy, Debug, PartialEq, Eq, Structural)]
pub enum Route {
    /// Nothing is there.
    NotFound,
    /// A file is there, and is streamed.
    ServeFile,
    /// A directory is there, and its index is rendered.
    ListDirectory,
}

/// `percent_decode_str` of the `percent-encoding` crate, collected into
/// bytes: escapes of a percent sign and two hexadecimal digits are
/// replaced, everything else is kept.
#[verifier::external_body]
fn percent_decode(input: &str) -> (out: Vec<u8>)
    ensures
        out@ == percent_decoded(input.spec_bytes()),
{
    percent_encoding::percent_decode_str(input).collect()
}

/// Decodes the path of a request. A path that does not decode to UTF-8
/// counts as the empty path.
pub fn decode_path(raw: &str) -> (path: String)
    ensures
        path@ == decoded_path(raw.spec_bytes()),
{
    match string_from_utf8(percent_decode(raw)) {
        Some(path) => path,
        None => String::new(),
    }
}

/// The depth of an already decoded relative path.
pub fn depth_of_path(path: &str) -> (depth: Option<usize>)
    ensures
        match depth {
            Some(d) => path_depth(path@) == Some(d as nat),
            None => path_depth(path@) is None,
        },
{
    let chars = chars_of(path);
    if chars.len() > 0 && chars[0] == '/' {
        return None;
    }
    let parts = split_chars(chars.as_slice(), '/');
    let ghost segments = split(path@, '/');
    let mut depth: usize = 0;
    let mut k: usize = 0;
    assert(segments.take(0) =~= Seq::<Seq<char>>::empty());
    while k < parts.len()
        invariant
            k <= parts@.len(),
            segments == split(path@, '/'),
            parts@.len() == segments.len(),
            forall|i: int| 0 <= i < parts@.len() ==> (#[trigger] parts@[i])@ == segments[i],
            depth_of(segments.take(k as int)) == Some(depth as nat),
            depth <= k,
        decreases parts.len() - k,
    {
        let part = parts[k].as_slice();
        proof {
            assert(part@ == segments[k as int]);
            assert(segments.take(k + 1).drop_last() =~= segments.take(k as int));
            assert(segments.take(k + 1).last() == segments[k as int]);
            reveal_strlit(".");
            reveal_strlit("..");
            assert("."@ =~= seq!['.']);
            assert(".."@ =~= seq!['.', '.']);
        }
        if part.len() == 0 || chars_are(part, ".") {
        } else if chars_are(part, "..") {
            if depth == 0 {
                proof {
                    lemma_left_root_stays_out(segments, k + 1);
                }
                return None;
            }
            depth -= 1;
        } else {
            depth += 1;
        }
        k += 1;
    }
    assert(segments.take(parts@.len() as int) =~= segments);
    Some(depth)
}

/// Resolves the path of a request: `Some` with the decoded path where it
/// stays under the root, `None` where it does not.
pub fn resolve(raw: &str) -> (found: Option<Resolution>)
    ensures
        match found {
            Some(r) => {
                &&& r.relative@ == decoded_path(raw.spec_bytes())
                &&& path_depth(r.relative@) is Some
                &&& r.at_root == (path_depth(r.relative@) == Some(0nat))
            },
            None => path_depth(decoded_path(raw.spec_bytes())) is None,
        },
{
    let relative = decode_path(raw);
    match depth_of_path(relative.as_str()) {
        Some(depth) => Some(Resolution { relative, at_root: depth == 0 }),
        None => None,
    }
}

/// The answer for what the file system reports of the resolved path:
/// nothing there, a file, or a directory.
pub open spec fn route_for(exists: bool, is_file: bool) -> Route {
    if !exists {
        Route::NotFound
    } else if is_file {
        Route::ServeFile
    } else {
        Route::ListDirectory
    }
}

/// Decides the answer from what the file system reports for the resolved
/// path.
pub fn route(exists: bool, is_file: bool) -> (answer: Route)
    ensures
        answer == route_for(exists, is_file),
{
    if !exists {
        Route::NotFound
    } else if is_file {
        Route::ServeFile
    } else {
        Route::ListDirectory
    }
}

/// A walk that has left the root after `n` segments has left it for good.
pub proof fn lemma_left_root_stays_out(segments: Seq<Seq<char>>, n: int)
    requires
        0 <= n <= segments.len(),
        depth_of(segments.take(n)) is None,
    ensures
        depth_of(segments) is None,
    decreases segments.len() - n,
{
    if n < segments.len() {
        assert(segments.take(n + 1).drop_last() =~= segments.take(n));
        lemma_left_root_stays_out(segments, n + 1);
    } else {
        assert(segments.take(n) =~= segments);
    }
}

/// A path with a depth never climbs above the root: after each of its
/// segments the walk stands at the root or below it.
pub proof fn lemma_confined_at_every_step(path: Seq<char>, n: int)
    requires
        path_depth(path) is Some,
        0 <= n <= split(path, '/').len(),
    ensures
        depth_of(split(path, '/').take(n)) is Some,
{
    if depth_of(split(path, '/').take(n)) is None {
        lemma_left_root_stays_out(split(path, '/'), n);
    }
}

/// A path without a percent sign decodes to itself.
pub proof fn lemma_plain_bytes_decode_to_themselves(bytes: Seq<u8>)
    requires
        !bytes.contains(37u8),
    ensures
        percent_decoded(bytes) == bytes,
    decreases bytes.len(),
{
    if bytes.len() > 0 {
        assert(bytes[0] != 37u8);
        let rest = bytes.skip(1);
        assert forall|i: int| 0 <= i < rest.len() implies rest[i] != 37u8 by {
            assert(rest[i] == bytes[i + 1]);
        }
        lemma_plain_bytes_decode_to_themselves(rest);
        assert(seq![bytes[0]] + rest =~= bytes);
    } else {
        assert(bytes =~= Seq::<u8>::empty());
    }
}

/// A path that is written without a percent sign names itself.
pub proof fn lemma_plain_path_names_itself(path: Seq<char>)
    requires
        !encode_utf8(path).contains(37u8),
    ensures
        decoded_path(encode_utf8(path)) == path,
{
    broadcast use vstd::utf8::encode_utf8_valid_utf8, vstd::utf8::encode_utf8_decode_utf8;

    lemma_plain_bytes_decode_to_themselves(encode_utf8(path));
    assert(valid_utf8(encode_utf8(path)));
    assert(decode_utf8(encode_utf8(path)) == path);
}

} // verus!
