//! Emission of the library's two JSON documents: the manifest the server
//! serves at its root route, and the registry's whole backing document.
//!
//! Both formats belong to this library, so the emitted text is pinned down
//! exactly: spec functions give the character sequence of every document,
//! string content included, with the escaping JSON requires.

use vstd::prelude::*;
use vstd::string::*;

use crate::registry::RegistryDoc;
use crate::registry::RegistryDocV;
use crate::types::LinkedPath;
use crate::types::LinkedPathV;
use crate::types::Network;
use crate::types::NetworkV;

verus! {

/// The lower-case hexadecimal digit of a value below sixteen.
pub open spec fn hex_digit(d: nat) -> char {
    if d == 0 {
        '0'
    } else if d == 1 {
        '1'
    } else if d == 2 {
        '2'
    } else if d == 3 {
        '3'
    } else if d == 4 {
        '4'
    } else if d == 5 {
        '5'
    } else if d == 6 {
        '6'
    } else if d == 7 {
        '7'
    } else if d == 8 {
        '8'
    } else if d == 9 {
        '9'
    } else if d == 10 {
        'a'
    } else if d == 11 {
        'b'
    } else if d == 12 {
        'c'
    } else if d == 13 {
        'd'
    } else if d == 14 {
        'e'
    } else {
        'f'
    }
}

/// How one character appears inside a JSON string literal: quotes and
/// backslashes are escaped, the named control characters take their short
/// escapes, the remaining control characters take a four-digit escape, and
/// every other character stands as itself.
pub open spec fn escape_char(c: char) -> Seq<char> {
    if c == '"' {
        "\\\""@
    } else if c == '\\' {
        "\\\\"@
    } else if c == '\u{8}' {
        "\\b"@
    } else if c == '\u{c}' {
        "\\f"@
    } else if c == '\n' {
        "\\n"@
    } else if c == '\r' {
        "\\r"@
    } else if c == '\t' {
        "\\t"@
    } else if (c as u32) < 32 {
        "\\u00"@ + seq![hex_digit(((c as u32) / 16) as nat), hex_digit(((c as u32) % 16) as nat)]
    } else {
        seq![c]
    }
}

/// A whole string's content as it appears inside a JSON string literal.
pub open spec fn escape_string(s: Seq<char>) -> Seq<char>
    decreases s.len(),
{
    if s.len() == 0 {
        Seq::empty()
    } else {
        escape_string(s.drop_last()) + escape_char(s.last())
    }
}

/// A JSON string literal: the escaped content between double quotes.
pub open spec fn quoted(s: Seq<char>) -> Seq<char> {
    seq!['"'] + escape_string(s) + seq!['"']
}

/// The decimal digit of a value below ten.
pub open spec fn dec_digit(d: nat) -> char {
    if d == 0 {
        '0'
    } else if d == 1 {
        '1'
    } else if d == 2 {
        '2'
    } else if d == 3 {
        '3'
    } else if d == 4 {
        '4'
    } else if d == 5 {
        '5'
    } else if d == 6 {
        '6'
    } else if d == 7 {
        '7'
    } else if d == 8 {
        '8'
    } else {
        '9'
    }
}

/// The decimal digits of a natural number, most significant first, with no
/// leading zero except for zero itself.
pub open spec fn dec_digits(n: nat) -> Seq<char>
    decreases n,
{
    if n < 10 {
        seq![dec_digit(n)]
    } else {
        dec_digits(n / 10) + seq![dec_digit(n % 10)]
    }
}

/// The decimal form of an integer, with a leading minus sign when negative.
pub open spec fn dec_int(v: int) -> Seq<char> {
    if v < 0 {
        seq!['-'] + dec_digits((-v) as nat)
    } else {
        dec_digits(v as nat)
    }
}

/// One linked path as a JSON object of its two fields.
pub open spec fn linked_path_json(lp: LinkedPathV) -> Seq<char> {
    "{\"name\":"@ + quoted(lp.name) + ",\"path\":"@ + quoted(lp.path) + "}"@
}

/// The members of a JSON array of linked paths, comma-separated.
pub open spec fn linked_path_items(lps: Seq<LinkedPathV>) -> Seq<char>
    decreases lps.len(),
{
    if lps.len() == 0 {
        Seq::empty()
    } else if lps.len() == 1 {
        linked_path_json(lps[0])
    } else {
        linked_path_items(lps.drop_last()) + ","@ + linked_path_json(lps.last())
    }
}

/// The manifest document: the JSON array of the served linked paths. The
/// same array form carries the `linked_paths` section of the registry's
/// backing document.
pub open spec fn manifest_json(lps: Seq<LinkedPathV>) -> Seq<char> {
    "["@ + linked_path_items(lps) + "]"@
}

/// One network as a JSON object tagged with its transport kind.
pub open spec fn network_json(n: NetworkV) -> Seq<char> {
    match n {
        NetworkV::Local { name, port, linked_paths } => "{\"LocalNetwork\":{\"name\":"@ + quoted(
            name,
        ) + ",\"port\":"@ + dec_int(port) + ",\"linked_paths\":"@ + manifest_json(linked_paths)
            + "}}"@,
        NetworkV::Internet { name, address } => "{\"InternetNetwork\":{\"name\":"@ + quoted(name)
            + ",\"address\":"@ + quoted(address) + "}}"@,
        NetworkV::DarkWeb { name, address } => "{\"DarkWebNetwork\":{\"name\":"@ + quoted(name)
            + ",\"address\":"@ + quoted(address) + "}}"@,
    }
}

/// The members of the JSON array of networks, comma-separated.
pub open spec fn network_items(ns: Seq<NetworkV>) -> Seq<char>
    decreases ns.len(),
{
    if ns.len() == 0 {
        Seq::empty()
    } else if ns.len() == 1 {
        network_json(ns[0])
    } else {
        network_items(ns.drop_last()) + ","@ + network_json(ns.last())
    }
}

/// The registry's whole backing document: both sections, so that a write of
/// one section always carries the sibling section along unchanged.
pub open spec fn registry_json(doc: RegistryDocV) -> Seq<char> {
    "{\"linked_paths\":"@ + manifest_json(doc.linked_paths) + ",\"networks\":["@ + network_items(
        doc.networks,
    ) + "]}"@
}

/// Relies on `String::push`: appends the given character to the end of the
/// string.
#[verifier::external_body]
fn push_char(out: &mut String, c: char)
    ensures
        final(out)@ == old(out)@.push(c),
{
    out.push(c);
}

/// The lower-case hexadecimal digit of a value below sixteen.
fn hex_digit_char(d: u32) -> (r: char)
    requires
        d < 16,
    ensures
        r == hex_digit(d as nat),
{
    if d == 0 {
        '0'
    } else if d == 1 {
        '1'
    } else if d == 2 {
        '2'
    } else if d == 3 {
        '3'
    } else if d == 4 {
        '4'
    } else if d == 5 {
        '5'
    } else if d == 6 {
        '6'
    } else if d == 7 {
        '7'
    } else if d == 8 {
        '8'
    } else if d == 9 {
        '9'
    } else if d == 10 {
        'a'
    } else if d == 11 {
        'b'
    } else if d == 12 {
        'c'
    } else if d == 13 {
        'd'
    } else if d == 14 {
        'e'
    } else {
        'f'
    }
}

/// The decimal digit of a value below ten.
fn dec_digit_char(d: u64) -> (r: char)
    requires
        d < 10,
    ensures
        r == dec_digit(d as nat),
{
    if d == 0 {
        '0'
    } else if d == 1 {
        '1'
    } else if d == 2 {
        '2'
    } else if d == 3 {
        '3'
    } else if d == 4 {
        '4'
    } else if d == 5 {
        '5'
    } else if d == 6 {
        '6'
    } else if d == 7 {
        '7'
    } else if d == 8 {
        '8'
    } else {
        '9'
    }
}

/// Appends a string's content in its escaped JSON form.
fn append_escaped(out: &mut String, s: &str)
    ensures
        final(out)@ == old(out)@ + escape_string(s@),
{
    let ghost base = out@;
    let n = s.unicode_len();
    let mut i: usize = 0;
    while i < n
        invariant
            n == s@.len(),
            i <= n,
            out@ == base + escape_string(s@.subrange(0, i as int)),
        decreases n - i,
    {
        let c = s.get_char(i);
        if c == '"' {
            out.append("\\\"");
        } else if c == '\\' {
            out.append("\\\\");
        } else if c == '\u{8}' {
            out.append("\\b");
        } else if c == '\u{c}' {
            out.append("\\f");
        } else if c == '\n' {
            out.append("\\n");
        } else if c == '\r' {
            out.append("\\r");
        } else if c == '\t' {
            out.append("\\t");
        } else if (c as u32) < 32 {
            out.append("\\u00");
            let code = c as u32;
            push_char(out, hex_digit_char(code / 16));
            push_char(out, hex_digit_char(code % 16));
        } else {
            push_char(out, c);
        }
        proof {
            assert(s@.subrange(0, i + 1).drop_last() =~= s@.subrange(0, i as int));
            assert(s@.subrange(0, i + 1).last() == s@[i as int]);
            assert(out@ =~= base + escape_string(s@.subrange(0, i + 1)));
        }
        i = i + 1;
    }
    proof {
        assert(s@.subrange(0, s@.len() as int) =~= s@);
    }
}

/// Appends a JSON string literal holding the given content.
fn append_quoted(out: &mut String, s: &str)
    ensures
        final(out)@ == old(out)@ + quoted(s@),
{
    let ghost base = out@;
    push_char(out, '"');
    append_escaped(out, s);
    push_char(out, '"');
    proof {
        assert(out@ =~= base + quoted(s@));
    }
}

/// Appends the decimal digits of a natural number.
fn append_dec_u64(out: &mut String, n: u64)
    ensures
        final(out)@ == old(out)@ + dec_digits(n as nat),
    decreases n,
{
    let ghost base = out@;
    if n < 10 {
        push_char(out, dec_digit_char(n));
        proof {
            assert(out@ =~= base + dec_digits(n as nat));
        }
    } else {
        append_dec_u64(out, n / 10);
        push_char(out, dec_digit_char(n % 10));
        proof {
            assert(out@ =~= base + dec_digits(n as nat));
        }
    }
}

/// Appends the decimal form of a signed number.
fn append_dec_i32(out: &mut String, v: i32)
    ensures
        final(out)@ == old(out)@ + dec_int(v as int),
{
    let ghost base = out@;
    if v < 0 {
        push_char(out, '-');
        let m: i64 = -(v as i64);
        assert(0 < m <= 0x8000_0000);
        append_dec_u64(out, m as u64);
        proof {
            assert(out@ =~= base + dec_int(v as int));
        }
    } else {
        append_dec_u64(out, v as u64);
    }
}

/// Appends one linked path as a JSON object.
fn append_linked_path(out: &mut String, lp: &LinkedPath)
    ensures
        final(out)@ == old(out)@ + linked_path_json(lp@),
{
    let ghost base = out@;
    out.append("{\"name\":");
    append_quoted(out, lp.name.as_str());
    out.append(",\"path\":");
    append_quoted(out, lp.path.as_str());
    out.append("}");
    proof {
        assert(out@ =~= base + linked_path_json(lp@));
    }
}

/// Appends the JSON array of the given linked paths.
fn append_linked_paths_array(out: &mut String, linked_paths: &Vec<LinkedPath>)
    ensures
        final(out)@ == old(out)@ + manifest_json(linked_paths.deep_view()),
{
    let ghost base = out@;
    let ghost lps = linked_paths.deep_view();
    out.append("[");
    let mut i: usize = 0;
    while i < linked_paths.len()
        invariant
            i <= linked_paths.len(),
            linked_paths.deep_view() == lps,
            out@ == base + "["@ + linked_path_items(lps.subrange(0, i as int)),
        decreases linked_paths.len() - i,
    {
        proof {
            assert(lps.subrange(0, i + 1).drop_last() =~= lps.subrange(0, i as int));
            assert(lps.subrange(0, i + 1).last() == lps[i as int]);
        }
        if i > 0 {
            out.append(",");
        }
        append_linked_path(out, &linked_paths[i]);
        proof {
            assert(out@ =~= base + "["@ + linked_path_items(lps.subrange(0, i + 1)));
        }
        i = i + 1;
    }
    out.append("]");
    proof {
        assert(lps.subrange(0, lps.len() as int) =~= lps);
        assert(out@ =~= base + manifest_json(lps));
    }
}

/// The manifest the server serves at its root route: the JSON array of the
/// linked paths it was started with.
pub fn manifest_json_text(linked_paths: &Vec<LinkedPath>) -> (r: String)
    ensures
        r@ == manifest_json(linked_paths.deep_view()),
{
    let mut out = String::new();
    append_linked_paths_array(&mut out, linked_paths);
    proof {
        assert(out@ =~= manifest_json(linked_paths.deep_view()));
    }
    out
}

/// Appends one network as a tagged JSON object.
fn append_network(out: &mut String, n: &Network)
    ensures
        final(out)@ == old(out)@ + network_json(n@),
{
    let ghost base = out@;
    match n {
        Network::LocalNetwork(ln) => {
            out.append("{\"LocalNetwork\":{\"name\":");
            append_quoted(out, ln.name.as_str());
            out.append(",\"port\":");
            append_dec_i32(out, ln.port);
            out.append(",\"linked_paths\":");
            append_linked_paths_array(out, &ln.linked_paths);
            out.append("}}");
        },
        Network::InternetNetwork(inet) => {
            out.append("{\"InternetNetwork\":{\"name\":");
            append_quoted(out, inet.name.as_str());
            out.append(",\"address\":");
            append_quoted(out, inet.address.as_str());
            out.append("}}");
        },
        Network::DarkWebNetwork(dw) => {
            out.append("{\"DarkWebNetwork\":{\"name\":");
            append_quoted(out, dw.name.as_str());
            out.append(",\"address\":");
            append_quoted(out, dw.address.as_str());
            out.append("}}");
        },
    }
    proof {
        assert(out@ =~= base + network_json(n@));
    }
}

/// The registry's whole backing document as JSON text: what a persisting
/// write replaces the backing file with, both sections always present.
pub fn registry_json_text(doc: &RegistryDoc) -> (r: String)
    ensures
        r@ == registry_json(doc@),
{
    let mut out = String::new();
    out.append("{\"linked_paths\":");
    append_linked_paths_array(&mut out, &doc.linked_paths);
    out.append(",\"networks\":[");
    let ghost pre = out@;
    let ghost ns = doc.networks.deep_view();
    let mut i: usize = 0;
    while i < doc.networks.len()
        invariant
            i <= doc.networks.len(),
            doc.networks.deep_view() == ns,
            out@ == pre + network_items(ns.subrange(0, i as int)),
        decreases doc.networks.len() - i,
    {
        proof {
            assert(ns.subrange(0, i + 1).drop_last() =~= ns.subrange(0, i as int));
            assert(ns.subrange(0, i + 1).last() == ns[i as int]);
        }
        if i > 0 {
            out.append(",");
        }
        append_network(&mut out, &doc.networks[i]);
        proof {
            assert(out@ =~= pre + network_items(ns.subrange(0, i + 1)));
        }
        i = i + 1;
    }
    out.append("]}");
    proof {
        assert(ns.subrange(0, ns.len() as int) =~= ns);
        assert(out@ =~= registry_json(doc@));
    }
    out
}

} // verus!
