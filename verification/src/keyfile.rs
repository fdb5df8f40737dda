//! The persisted key-material format: newline-separated hex-encoded 32-byte
//! secret keys, written after the publish phase and read back to resume
//! monitoring of an earlier batch.
//!
//! Reading and writing the file itself is the surrounding program's job; this
//! module renders and parses the file's contents.

use vstd::prelude::*;

verus! {

/// Whether `c` is an ASCII hexadecimal digit (either case).
pub open spec fn is_hex_digit(c: u8) -> bool {
    (48 <= c <= 57) || (65 <= c <= 70) || (97 <= c <= 102)
}

/// The numeric value of a hexadecimal digit.
pub open spec fn hex_digit_value(c: u8) -> int
    recommends
        is_hex_digit(c),
{
    if 48 <= c <= 57 {
        c - 48
    } else if 65 <= c <= 70 {
        c - 65 + 10
    } else {
        c - 97 + 10
    }
}

/// Whether `s` is a well-formed hexadecimal string: even length, digits only.
pub open spec fn is_hex_seq(s: Seq<u8>) -> bool {
    s.len() % 2 == 0 && forall|i: int| 0 <= i < s.len() ==> is_hex_digit(#[trigger] s[i])
}

/// The bytes a well-formed hexadecimal string denotes, two digits per byte,
/// high digit first.
pub open spec fn hex_decode_seq(s: Seq<u8>) -> Seq<u8>
    recommends
        is_hex_seq(s),
    decreases s.len(),
{
    if s.len() < 2 {
        Seq::<u8>::empty()
    } else {
        seq![(hex_digit_value(s[0]) * 16 + hex_digit_value(s[1])) as u8] + hex_decode_seq(
            s.skip(2),
        )
    }
}

/// The lowercase digit for a value below 16.
pub open spec fn hex_digit_char(v: int) -> u8
    recommends
        0 <= v < 16,
{
    if v < 10 {
        (48 + v) as u8
    } else {
        (87 + v) as u8
    }
}

/// The lowercase hexadecimal rendering of `b`, two digits per byte.
pub open spec fn hex_encode_seq(b: Seq<u8>) -> Seq<u8>
    decreases b.len(),
{
    if b.len() == 0 {
        Seq::<u8>::empty()
    } else {
        seq![hex_digit_char(b[0] as int / 16), hex_digit_char(b[0] as int % 16)] + hex_encode_seq(
            b.drop_first(),
        )
    }
}

/// Relies on hex::decode, which succeeds exactly on even-length strings of
/// hexadecimal digits of either case and then returns the denoted bytes, two
/// digits per byte, high digit first.
#[verifier::external_body]
fn hex_decode_bytes(line: &[u8]) -> (r: Option<Vec<u8>>)
    ensures
        r.is_some() <==> is_hex_seq(line@),
        r.is_some() ==> r.unwrap()@ == hex_decode_seq(line@),
{
    hex::decode(line).ok()
}

/// Relies on hex::encode, which renders each byte as two lowercase
/// hexadecimal digits, high digit first.
#[verifier::external_body]
fn hex_encode_bytes(data: &[u8]) -> (r: Vec<u8>)
    ensures
        r@ == hex_encode_seq(data@),
{
    hex::encode(data).into_bytes()
}

/// A line with its trailing carriage return, if any, removed.
pub open spec fn strip_cr(l: Seq<u8>) -> Seq<u8> {
    if l.len() > 0 && l.last() == 13u8 {
        l.drop_last()
    } else {
        l
    }
}

/// The lines of `s` from position `from` on, with `cur` the part of the
/// current line already consumed: split at every newline, the final line
/// kept only if nonempty.
pub open spec fn lines_acc(s: Seq<u8>, from: int, cur: Seq<u8>) -> Seq<Seq<u8>>
    decreases s.len() - from,
{
    if from < 0 || from >= s.len() {
        if cur.len() == 0 {
            Seq::<Seq<u8>>::empty()
        } else {
            seq![cur]
        }
    } else if s[from] == 10u8 {
        seq![cur] + lines_acc(s, from + 1, Seq::<u8>::empty())
    } else {
        lines_acc(s, from + 1, cur.push(s[from]))
    }
}

/// The lines of `s`, as the original key files were written and read: one
/// entry per newline-terminated segment, plus the final segment if nonempty.
pub open spec fn split_lines(s: Seq<u8>) -> Seq<Seq<u8>> {
    lines_acc(s, 0, Seq::<u8>::empty())
}

/// Whether a line of the key file is acceptable: hexadecimal and denoting
/// exactly 32 bytes.
pub open spec fn line_ok(l: Seq<u8>) -> bool {
    is_hex_seq(strip_cr(l)) && hex_decode_seq(strip_cr(l)).len() == 32
}

/// Why the key material was rejected; either way the whole working set is
/// invalid and loading fails.
#[derive(Clone, Copy, Debug, PartialEq, Eq, Structural)]
pub enum KeyFileError {
    /// The line at this index is not a well-formed hexadecimal string.
    InvalidHex { line: usize },
    /// The line at this index decodes to something other than 32 bytes.
    WrongLength { line: usize },
}

/// Parses the contents of a key file into its secret keys: one 32-byte key
/// per line, rejected as a whole at the first malformed line.
pub fn parse_secret_keys(data: &[u8]) -> (r: Result<Vec<Vec<u8>>, KeyFileError>)
    ensures
        r.is_ok() <==> (forall|i: int|
            0 <= i < split_lines(data@).len() ==> line_ok(#[trigger] split_lines(data@)[i])),
        r.is_ok() ==> {
            &&& r.unwrap()@.len() == split_lines(data@).len()
            &&& forall|i: int|
                0 <= i < split_lines(data@).len() ==> (#[trigger] r.unwrap()@[i])@
                    == hex_decode_seq(strip_cr(split_lines(data@)[i]))
        },
        r matches Err(KeyFileError::InvalidHex { line }) ==> {
            &&& line < split_lines(data@).len()
            &&& !is_hex_seq(strip_cr(split_lines(data@)[line as int]))
            &&& forall|i: int| 0 <= i < line ==> line_ok(#[trigger] split_lines(data@)[i])
        },
        r matches Err(KeyFileError::WrongLength { line }) ==> {
            &&& line < split_lines(data@).len()
            &&& is_hex_seq(strip_cr(split_lines(data@)[line as int]))
            &&& hex_decode_seq(strip_cr(split_lines(data@)[line as int])).len() != 32
            &&& forall|i: int| 0 <= i < line ==> line_ok(#[trigger] split_lines(data@)[i])
        },
{
    let ghost all_lines = split_lines(data@);
    let mut out: Vec<Vec<u8>> = Vec::new();
    let mut cur: Vec<u8> = Vec::new();
    let ghost mut flushed = Seq::<Seq<u8>>::empty();
    let mut pos: usize = 0;
    while pos < data.len()
        invariant
            0 <= pos <= data@.len(),
            all_lines == split_lines(data@),
            all_lines == flushed + lines_acc(data@, pos as int, cur@),
            out@.len() == flushed.len(),
            forall|i: int| 0 <= i < flushed.len() ==> line_ok(#[trigger] flushed[i]),
            forall|i: int| 0 <= i < flushed.len() ==> (#[trigger] out@[i])@ == hex_decode_seq(
                strip_cr(flushed[i]),
            ),
        decreases data@.len() - pos,
    {
        let c = data[pos];
        if c == 10u8 {
            let ghost raw = cur@;
            proof {
                assert(lines_acc(data@, pos as int, cur@) == seq![raw] + lines_acc(
                    data@,
                    pos as int + 1,
                    Seq::<u8>::empty(),
                ));
                assert(flushed + (seq![raw] + lines_acc(data@, pos as int + 1, Seq::<u8>::empty()))
                    =~= (flushed + seq![raw]) + lines_acc(data@, pos as int + 1, Seq::<u8>::empty()));
            }
            if cur.len() > 0 && cur[cur.len() - 1] == 13u8 {
                cur.pop();
            }
            proof {
                assert(cur@ == strip_cr(raw));
            }
            match hex_decode_bytes(cur.as_slice()) {
                None => {
                    proof {
                        assert(all_lines[flushed.len() as int] == raw);
                        assert(!line_ok(all_lines[flushed.len() as int]));
                    }
                    return Err(KeyFileError::InvalidHex { line: out.len() });
                },
                Some(bytes) => {
                    if bytes.len() != 32 {
                        proof {
                            assert(all_lines[flushed.len() as int] == raw);
                            assert(!line_ok(all_lines[flushed.len() as int]));
                        }
                        return Err(KeyFileError::WrongLength { line: out.len() });
                    }
                    out.push(bytes);
                    proof {
                        flushed = flushed + seq![raw];
                    }
                },
            }
            cur = Vec::new();
        } else {
            cur.push(c);
        }
        pos = pos + 1;
    }
    if cur.len() > 0 {
        let ghost raw = cur@;
        proof {
            assert(lines_acc(data@, pos as int, cur@) == seq![raw]);
            assert(flushed + seq![raw] =~= all_lines);
        }
        if cur[cur.len() - 1] == 13u8 {
            cur.pop();
        }
        proof {
            assert(cur@ == strip_cr(raw));
        }
        match hex_decode_bytes(cur.as_slice()) {
            None => {
                proof {
                    assert(all_lines[flushed.len() as int] == raw);
                    assert(!line_ok(all_lines[flushed.len() as int]));
                }
                return Err(KeyFileError::InvalidHex { line: out.len() });
            },
            Some(bytes) => {
                if bytes.len() != 32 {
                    proof {
                        assert(all_lines[flushed.len() as int] == raw);
                        assert(!line_ok(all_lines[flushed.len() as int]));
                    }
                    return Err(KeyFileError::WrongLength { line: out.len() });
                }
                out.push(bytes);
                proof {
                    flushed = flushed + seq![raw];
                }
            },
        }
    }
    proof {
        assert(flushed =~= all_lines);
    }
    Ok(out)
}

/// The rendered key file for a batch of secret keys: each key's lowercase
/// hexadecimal form, separated by single newlines, no trailing newline.
pub open spec fn render_secrets(keys: Seq<Seq<u8>>) -> Seq<u8>
    decreases keys.len(),
{
    if keys.len() == 0 {
        Seq::<u8>::empty()
    } else if keys.len() == 1 {
        hex_encode_seq(keys[0])
    } else {
        render_secrets(keys.drop_last()) + seq![10u8] + hex_encode_seq(keys.last())
    }
}

/// Hexadecimal encoding is faithful: its output is well-formed hexadecimal
/// of twice the length, made of digit characters only (so never a newline or
/// carriage return), and decoding it gives back the bytes.
pub proof fn lemma_hex_encode_faithful(b: Seq<u8>)
    ensures
        hex_encode_seq(b).len() == 2 * b.len(),
        is_hex_seq(hex_encode_seq(b)),
        hex_decode_seq(hex_encode_seq(b)) == b,
        forall|i: int| 0 <= i < hex_encode_seq(b).len() ==> is_hex_digit(
            #[trigger] hex_encode_seq(b)[i],
        ) && hex_encode_seq(b)[i] != 10u8 && hex_encode_seq(b)[i] != 13u8,
    decreases b.len(),
{
    if b.len() > 0 {
        lemma_hex_encode_faithful(b.drop_first());
        let e = hex_encode_seq(b);
        let c1 = hex_digit_char(b[0] as int / 16);
        let c2 = hex_digit_char(b[0] as int % 16);
        assert(e.skip(2) =~= hex_encode_seq(b.drop_first()));
        assert(hex_digit_value(c1) == b[0] as int / 16);
        assert(hex_digit_value(c2) == b[0] as int % 16);
        assert(hex_decode_seq(e) =~= b);
    }
}

/// Scanning is position-independent: the lines from position `from` on are
/// the lines of the suffix that starts there.
proof fn lemma_lines_acc_shift(s: Seq<u8>, from: int, cur: Seq<u8>)
    requires
        0 <= from <= s.len(),
    ensures
        lines_acc(s, from, cur) == lines_acc(s.skip(from), 0, cur),
    decreases s.len() - from,
{
    if from < s.len() {
        assert(s.skip(from)[0] == s[from]);
        if s[from] == 10u8 {
            lemma_lines_acc_shift(s, from + 1, Seq::<u8>::empty());
            lemma_lines_acc_shift(s.skip(from), 1, Seq::<u8>::empty());
            assert(s.skip(from).skip(1) =~= s.skip(from + 1));
        } else {
            lemma_lines_acc_shift(s, from + 1, cur.push(s[from]));
            lemma_lines_acc_shift(s.skip(from), 1, cur.push(s[from]));
            assert(s.skip(from).skip(1) =~= s.skip(from + 1));
        }
    } else {
        assert(s.skip(from).len() == 0);
    }
}

/// A text without newlines is one line (or none, when it and the carried
/// part are both empty).
proof fn lemma_lines_acc_no_newline(s: Seq<u8>, cur: Seq<u8>)
    requires
        forall|i: int| 0 <= i < s.len() ==> s[i] != 10u8,
    ensures
        lines_acc(s, 0, cur) == (if cur.len() + s.len() == 0 {
            Seq::<Seq<u8>>::empty()
        } else {
            seq![cur + s]
        }),
    decreases s.len(),
{
    if s.len() == 0 {
        if cur.len() > 0 {
            assert(cur + s =~= cur);
        }
    } else {
        lemma_lines_acc_shift(s, 1, cur.push(s[0]));
        lemma_lines_acc_no_newline(s.skip(1), cur.push(s[0]));
        assert(cur.push(s[0]) + s.skip(1) =~= cur + s);
    }
}

/// Splitting after the first newline: a newline-free first line, then the
/// rest's lines.
proof fn lemma_lines_acc_split_first(line: Seq<u8>, rest: Seq<u8>, cur: Seq<u8>)
    requires
        forall|i: int| 0 <= i < line.len() ==> line[i] != 10u8,
    ensures
        lines_acc(line + seq![10u8] + rest, 0, cur) == seq![cur + line] + lines_acc(
            rest,
            0,
            Seq::<u8>::empty(),
        ),
    decreases line.len(),
{
    let s = line + seq![10u8] + rest;
    if line.len() == 0 {
        assert(s[0] == 10u8);
        lemma_lines_acc_shift(s, 1, Seq::<u8>::empty());
        assert(s.skip(1) =~= rest);
        assert(cur + line =~= cur);
    } else {
        assert(s[0] == line[0]);
        lemma_lines_acc_shift(s, 1, cur.push(line[0]));
        assert(s.skip(1) =~= line.skip(1) + seq![10u8] + rest);
        lemma_lines_acc_split_first(line.skip(1), rest, cur.push(line[0]));
        assert(cur.push(line[0]) + line.skip(1) =~= cur + line);
    }
}

/// The rendering of two or more keys, seen from the front.
proof fn lemma_render_secrets_front(keys: Seq<Seq<u8>>)
    requires
        keys.len() >= 2,
    ensures
        render_secrets(keys) == hex_encode_seq(keys[0]) + seq![10u8] + render_secrets(
            keys.drop_first(),
        ),
    decreases keys.len(),
{
    let dl = keys.drop_last();
    if keys.len() == 2 {
        assert(dl =~= seq![keys[0]]);
        assert(keys.drop_first() =~= seq![keys[1]]);
        assert(render_secrets(seq![keys[0]]) == hex_encode_seq(keys[0]));
        assert(render_secrets(seq![keys[1]]) == hex_encode_seq(keys[1]));
    } else {
        lemma_render_secrets_front(dl);
        assert(dl[0] == keys[0]);
        lemma_render_secrets_front(keys.drop_first());
        assert(keys.drop_first().drop_last() =~= dl.drop_first());
        assert(keys.drop_first().last() == keys.last());
        assert(hex_encode_seq(keys[0]) + seq![10u8] + (render_secrets(dl.drop_first())
            + seq![10u8] + hex_encode_seq(keys.last())) =~= (hex_encode_seq(keys[0])
            + seq![10u8] + render_secrets(dl.drop_first())) + seq![10u8] + hex_encode_seq(
            keys.last(),
        ));
    }
}

/// Splitting the rendered file gives one line per nonempty key, each line
/// the key's encoding.
proof fn lemma_split_render(keys: Seq<Seq<u8>>)
    requires
        forall|k: int| 0 <= k < keys.len() ==> (#[trigger] keys[k]).len() > 0,
    ensures
        split_lines(render_secrets(keys)).len() == keys.len(),
        forall|k: int|
            0 <= k < keys.len() ==> split_lines(render_secrets(keys))[k] == hex_encode_seq(
                #[trigger] keys[k],
            ),
    decreases keys.len(),
{
    if keys.len() == 1 {
        lemma_hex_encode_faithful(keys[0]);
        lemma_lines_acc_no_newline(hex_encode_seq(keys[0]), Seq::<u8>::empty());
        assert(Seq::<u8>::empty() + hex_encode_seq(keys[0]) =~= hex_encode_seq(keys[0]));
    } else if keys.len() >= 2 {
        lemma_render_secrets_front(keys);
        lemma_hex_encode_faithful(keys[0]);
        lemma_lines_acc_split_first(
            hex_encode_seq(keys[0]),
            render_secrets(keys.drop_first()),
            Seq::<u8>::empty(),
        );
        assert(Seq::<u8>::empty() + hex_encode_seq(keys[0]) =~= hex_encode_seq(keys[0]));
        lemma_split_render(keys.drop_first());
        assert forall|k: int| 0 <= k < keys.len() implies split_lines(render_secrets(keys))[k]
            == hex_encode_seq(#[trigger] keys[k]) by {
            if k > 0 {
                assert(keys.drop_first()[k - 1] == keys[k]);
            }
        }
    }
}

/// The key-material round trip loses nothing: the rendered file splits into
/// one acceptable line per 32-byte key, and each line decodes back to its
/// key — so parsing what was written returns exactly the batch.
pub proof fn lemma_key_file_round_trip(keys: Seq<Seq<u8>>)
    requires
        forall|k: int| 0 <= k < keys.len() ==> (#[trigger] keys[k]).len() == 32,
    ensures
        split_lines(render_secrets(keys)).len() == keys.len(),
        forall|k: int|
            0 <= k < keys.len() ==> line_ok(#[trigger] split_lines(render_secrets(keys))[k])
                && hex_decode_seq(strip_cr(split_lines(render_secrets(keys))[k])) == keys[k],
{
    lemma_split_render(keys);
    assert forall|k: int| 0 <= k < keys.len() implies line_ok(
        #[trigger] split_lines(render_secrets(keys))[k],
    ) && hex_decode_seq(strip_cr(split_lines(render_secrets(keys))[k])) == keys[k] by {
        lemma_hex_encode_faithful(keys[k]);
        let l = split_lines(render_secrets(keys))[k];
        assert(l == hex_encode_seq(keys[k]));
        assert(l.len() == 64);
        assert(l.last() != 13u8);
        assert(strip_cr(l) == l);
    }
}

/// Renders a batch of secret keys as the key file's contents.
pub fn format_secret_keys(keys: &Vec<Vec<u8>>) -> (r: Vec<u8>)
    ensures
        r@ == render_secrets(keys@.map_values(|k: Vec<u8>| k@)),
{
    let ghost model = keys@.map_values(|k: Vec<u8>| k@);
    let mut out: Vec<u8> = Vec::new();
    let mut i: usize = 0;
    while i < keys.len()
        invariant
            0 <= i <= keys@.len(),
            model == keys@.map_values(|k: Vec<u8>| k@),
            out@ == render_secrets(model.take(i as int)),
        decreases keys@.len() - i,
    {
        proof {
            assert(model.take(i as int + 1).drop_last() =~= model.take(i as int));
            assert(model.take(i as int + 1).last() == model[i as int]);
        }
        if i > 0 {
            out.push(10u8);
        }
        let mut h = hex_encode_bytes(keys[i].as_slice());
        out.append(&mut h);
        proof {
            assert(out@ =~= render_secrets(model.take(i as int + 1)));
        }
        i = i + 1;
    }
    proof {
        assert(model.take(keys@.len() as int) =~= model);
    }
    out
}

} // verus!
