//! Fingerprints of steps.
//!
//! A step is fed to the standard hasher field by field, in a form from
//! which the step can be read back; the fingerprint is the hash in
//! hexadecimal. So a fingerprint depends on the declared inputs of the step
//! and on nothing else, and two steps that differ in any input are fed
//! differently.

use crate::records::{InstallStep, StepView};
use crate::text::{from_chars, opt_view};
use std::collections::hash_map::DefaultHasher;
use std::hash::Hasher;
use vstd::prelude::*;
use vstd::std_specs::hash::DefaultHasherAdditionalSpecFns;
use vstd::string::StringSliceAdditionalSpecFns;
use vstd::utf8::{encode_utf8, encode_utf8_decode_utf8};

verus! {

/// What is fed for an optional text: a zero byte when it is absent, a one
/// byte and the text when it is present.
pub open spec fn spec_opt_chunk(o: Option<Seq<char>>) -> Seq<u8> {
    match o {
        Some(s) => seq![1u8] + encode_utf8(s),
        None => seq![0u8],
    }
}

/// What is fed for a step: its kind, then its fields in order, one piece
/// for each.
pub open spec fn spec_step_chunks(s: StepView) -> Seq<Seq<u8>> {
    match s {
        StepView::Fetch { name, url, checksum, filename } => seq![
            seq![70u8],
            spec_opt_chunk(name),
            encode_utf8(url),
            spec_opt_chunk(checksum),
            spec_opt_chunk(filename),
        ],
        StepView::Extract { name, format } => seq![
            seq![69u8],
            spec_opt_chunk(name),
            spec_opt_chunk(format),
        ],
        StepView::Run { name, command, cwd } => seq![
            seq![82u8],
            spec_opt_chunk(name),
            encode_utf8(command),
            spec_opt_chunk(cwd),
        ],
    }
}

/// The digit of a value below sixteen, in lower case.
pub open spec fn spec_digit(n: int) -> char {
    if n < 10 {
        ('0' as u8 + n) as char
    } else {
        ('a' as u8 + n - 10) as char
    }
}

/// A number in hexadecimal, lower case, without leading zeros.
pub open spec fn spec_hex(n: nat) -> Seq<char>
    decreases n,
{
    if n < 16 {
        seq![spec_digit(n as int)]
    } else {
        spec_hex(n / 16).push(spec_digit((n % 16) as int))
    }
}

/// The fingerprint of a step.
pub open spec fn spec_fingerprint(s: StepView) -> Seq<char> {
    spec_hex(DefaultHasher::spec_finish(spec_step_chunks(s)) as nat)
}

fn digit(n: u64) -> (c: char)
    requires
        n < 16,
    ensures
        c == spec_digit(n as int),
{
    let b: u8 = n as u8;
    if b < 10 {
        (48u8 + b) as char
    } else {
        (97u8 + b - 10) as char
    }
}

fn hex_into(n: u64, out: &mut Vec<char>)
    ensures
        final(out)@ == old(out)@ + spec_hex(n as nat),
    decreases n,
{
    if n >= 16 {
        hex_into(n / 16, out);
    }
    out.push(digit(n % 16));
    assert(out@ =~= old(out)@ + spec_hex(n as nat));
}

/// Writes a number in hexadecimal.
pub fn to_hex(n: u64) -> (r: String)
    ensures
        r@ == spec_hex(n as nat),
{
    let mut out: Vec<char> = Vec::new();
    hex_into(n, &mut out);
    assert(out@ =~= spec_hex(n as nat));
    from_chars(&out)
}

fn feed_opt(h: &mut DefaultHasher, o: &Option<String>)
    ensures
        final(h)@ == old(h)@.push(spec_opt_chunk(opt_view(*o))),
{
    let mut piece: Vec<u8> = Vec::new();
    match o {
        Some(s) => {
            piece.push(1u8);
            let bytes = s.as_str().as_bytes();
            let mut i: usize = 0;
            while i < bytes.len()
                invariant
                    i <= bytes.len(),
                    bytes@ == encode_utf8(s@),
                    piece@ == seq![1u8] + bytes@.subrange(0, i as int),
                decreases bytes.len() - i,
            {
                piece.push(bytes[i]);
                i += 1;
                assert(piece@ =~= seq![1u8] + bytes@.subrange(0, i as int));
            }
            assert(bytes@.subrange(0, bytes@.len() as int) =~= bytes@);
        },
        None => {
            piece.push(0u8);
            assert(piece@ =~= seq![0u8]);
        },
    }
    h.write(piece.as_slice());
}

fn feed_tag(h: &mut DefaultHasher, tag: u8)
    ensures
        final(h)@ == old(h)@.push(seq![tag]),
{
    let t: [u8; 1] = [tag];
    h.write(t.as_slice());
    assert(t@ =~= seq![tag]);
}

fn feed_text(h: &mut DefaultHasher, s: &String)
    ensures
        final(h)@ == old(h)@.push(encode_utf8(s@)),
{
    h.write(s.as_str().as_bytes());
}

/// The fingerprint of a step: a function of the step's declared inputs
/// alone.
pub fn hash_to_string(step: &InstallStep) -> (r: String)
    ensures
        r@ == spec_fingerprint(step@),
{
    let mut h = DefaultHasher::new();
    match step {
        InstallStep::Fetch { name, url, checksum, filename } => {
            feed_tag(&mut h, 70);
            feed_opt(&mut h, name);
            feed_text(&mut h, url);
            feed_opt(&mut h, checksum);
            feed_opt(&mut h, filename);
        },
        InstallStep::Extract { name, format } => {
            feed_tag(&mut h, 69);
            feed_opt(&mut h, name);
            feed_opt(&mut h, format);
        },
        InstallStep::Run { name, command, cwd } => {
            feed_tag(&mut h, 82);
            feed_opt(&mut h, name);
            feed_text(&mut h, command);
            feed_opt(&mut h, cwd);
        },
    }
    assert(h@ =~= spec_step_chunks(step@));
    to_hex(h.finish())
}

/// What is fed for an optional text tells the text.
pub proof fn lemma_opt_chunk_injective(a: Option<Seq<char>>, b: Option<Seq<char>>)
    requires
        spec_opt_chunk(a) == spec_opt_chunk(b),
    ensures
        a == b,
{
    let x = spec_opt_chunk(a);
    let y = spec_opt_chunk(b);
    assert(x[0] == y[0]);
    match (a, b) {
        (Some(s), Some(t)) => {
            assert(encode_utf8(s) =~= x.subrange(1, x.len() as int));
            assert(encode_utf8(t) =~= y.subrange(1, y.len() as int));
            lemma_text_injective(s, t);
        },
        _ => {},
    }
}

/// The bytes of a text tell the text.
pub proof fn lemma_text_injective(s: Seq<char>, t: Seq<char>)
    requires
        encode_utf8(s) == encode_utf8(t),
    ensures
        s == t,
{
    encode_utf8_decode_utf8(s);
    encode_utf8_decode_utf8(t);
}

/// Steps that are fed alike are the same step: the fingerprint takes in
/// every declared input.
pub proof fn lemma_chunks_injective(a: StepView, b: StepView)
    requires
        spec_step_chunks(a) == spec_step_chunks(b),
    ensures
        a == b,
{
    let x = spec_step_chunks(a);
    let y = spec_step_chunks(b);
    assert(x[0][0] == y[0][0]);
    match (a, b) {
        (
            StepView::Fetch { name: n1, url: u1, checksum: c1, filename: f1 },
            StepView::Fetch { name: n2, url: u2, checksum: c2, filename: f2 },
        ) => {
            assert(x[1] == y[1] && x[2] == y[2] && x[3] == y[3] && x[4] == y[4]);
            lemma_opt_chunk_injective(n1, n2);
            lemma_text_injective(u1, u2);
            lemma_opt_chunk_injective(c1, c2);
            lemma_opt_chunk_injective(f1, f2);
        },
        (
            StepView::Extract { name: n1, format: f1 },
            StepView::Extract { name: n2, format: f2 },
        ) => {
            assert(x[1] == y[1] && x[2] == y[2]);
            lemma_opt_chunk_injective(n1, n2);
            lemma_opt_chunk_injective(f1, f2);
        },
        (
            StepView::Run { name: n1, command: c1, cwd: w1 },
            StepView::Run { name: n2, command: c2, cwd: w2 },
        ) => {
            assert(x[1] == y[1] && x[2] == y[2] && x[3] == y[3]);
            lemma_opt_chunk_injective(n1, n2);
            lemma_text_injective(c1, c2);
            lemma_opt_chunk_injective(w1, w2);
        },
        _ => {},
    }
}

} // verus!
