//! The escape sequences that show a PNG image inline: the Kitty graphics
//! protocol and iTerm2's inline image protocol, with the image's width capped
//! at the terminal's.
use vstd::prelude::*;
use crate::text::{decimal, decimal_chars, slice_chars, chars_of};
use base64::Engine;

verus! {

/// What `base64::engine::general_purpose::STANDARD.encode` returns for
/// `data`: standard-alphabet base64 with `=` padding.
pub uninterp spec fn base64_standard(data: Seq<u8>) -> Seq<char>;

/// The padded base64 length of `len` bytes fits in a `usize`.
pub open spec fn encodable(len: nat) -> bool {
    (len / 3) * 4 + (if len % 3 > 0 {
        4int
    } else {
        0int
    }) <= usize::MAX
}

/// `base64::engine::general_purpose::STANDARD.encode(data)`: the padded
/// standard base64 text of `data`. `encode` panics when the encoded length
/// overflows `usize`, which `encodable` rules out.
#[verifier::external_body]
fn encode_base64(data: &[u8]) -> (s: String)
    requires
        encodable(data@.len()),
    ensures
        s@ == base64_standard(data@),
{
    base64::engine::general_purpose::STANDARD.encode(data)
}

/// The width that a PNG's IHDR chunk records (bytes 16 to 19, big endian),
/// if the data is long enough to hold it.
pub open spec fn png_width_of(data: Seq<u8>) -> Option<u32> {
    if data.len() < 24 {
        None
    } else {
        Some(
            (data[16] as int * 16777216 + data[17] as int * 65536 + data[18] as int * 256
                + data[19] as int) as u32,
        )
    }
}

/// Reads the PNG width from the IHDR chunk header.
pub fn png_width(data: &[u8]) -> (w: Option<u32>)
    ensures
        w == png_width_of(data@),
{
    if data.len() < 24 {
        return None;
    }
    let w = (data[16] as u32) * 16777216 + (data[17] as u32) * 65536 + (data[18] as u32) * 256
        + (data[19] as u32);
    Some(w)
}

/// The columns to limit an image to: the terminal's width when the image,
/// at about 8 pixels per cell, is wider than the terminal; none otherwise.
pub open spec fn image_columns(data: Seq<u8>, term_cols: u32) -> Option<u32> {
    match png_width_of(data) {
        None => None,
        Some(w) => if (w + 7) / 8 > term_cols {
            Some(term_cols)
        } else {
            None
        },
    }
}

/// Computes the display columns for an image, capped at the terminal width.
pub fn image_display_cols(png_data: &[u8], term_cols: u32) -> (c: Option<u32>)
    ensures
        c == image_columns(png_data@, term_cols),
{
    let img_width = match png_width(png_data) {
        None => {
            return None;
        },
        Some(w) => w,
    };
    let cell_px: u32 = 8;
    let img_cols = img_width / cell_px + if img_width % cell_px != 0 {
        1
    } else {
        0
    };
    assert(img_cols == (img_width + 7) / 8);
    if img_cols > term_cols {
        Some(term_cols)
    } else {
        None
    }
}

/// Appends the characters of `v` to `s`.
fn push_chars(s: &mut String, v: &Vec<char>)
    ensures
        final(s)@ == old(s)@ + v@,
{
    let mut i: usize = 0;
    while i < v.len()
        invariant
            i <= v.len(),
            s@ == old(s)@ + v@.take(i as int),
        decreases v.len() - i,
    {
        s.push(v[i]);
        i = i + 1;
        assert(s@ =~= old(s)@ + v@.take(i as int));
    }
    assert(v@.take(i as int) =~= v@);
}

/// The Kitty column limit, `,c=<cols>`, if there is one.
pub open spec fn kitty_column_spec(cols: Option<u32>) -> Seq<char> {
    match cols {
        Some(c) => ",c="@ + decimal(c as nat),
        None => seq![],
    }
}

/// Kitty images go out in chunks of this many base64 characters.
pub open spec fn kitty_chunk_size() -> int {
    4096
}

/// The `k`-th chunk of the base64 text.
pub open spec fn kitty_chunk(enc: Seq<char>, k: nat) -> Seq<char> {
    let start = 4096 * k as int;
    let end = if 4096 * (k + 1) < enc.len() {
        4096 * (k + 1) as int
    } else {
        enc.len() as int
    };
    enc.subrange(start, end)
}

/// `1` if more chunks follow chunk `k`, `0` for the last one.
pub open spec fn kitty_more(enc: Seq<char>, k: nat) -> Seq<char> {
    if 4096 * (k + 1) < enc.len() {
        seq!['1']
    } else {
        seq!['0']
    }
}

/// The escape sequence for chunk `k`; the first one carries the format and
/// the column limit.
pub open spec fn kitty_piece(enc: Seq<char>, cols: Seq<char>, k: nat) -> Seq<char> {
    if k == 0 {
        "\x1b_Gf=100,a=T,m="@ + kitty_more(enc, k) + cols + ";"@ + kitty_chunk(enc, k)
            + "\x1b\\"@
    } else {
        "\x1b_Gm="@ + kitty_more(enc, k) + ";"@ + kitty_chunk(enc, k) + "\x1b\\"@
    }
}

/// The escape sequences for chunk `k` and all that follow it.
pub open spec fn kitty_pieces_from(enc: Seq<char>, cols: Seq<char>, k: nat) -> Seq<char>
    decreases enc.len() + 4096 - 4096 * k,
{
    if 4096 * k >= enc.len() {
        seq![]
    } else {
        kitty_piece(enc, cols, k) + kitty_pieces_from(enc, cols, k + 1)
    }
}

/// What is written to show a PNG with the Kitty graphics protocol: one escape
/// sequence if the base64 text fits in a chunk, otherwise one per chunk,
/// then a newline.
pub open spec fn kitty_escape_text(png: Seq<u8>, term_cols: u32) -> Seq<char> {
    kitty_sequence_text(base64_standard(png), image_columns(png, term_cols))
}

/// What is written for the base64 text `enc` of an image shown at most
/// `columns` wide.
pub open spec fn kitty_sequence_text(enc: Seq<char>, columns: Option<u32>) -> Seq<char> {
    let cols = kitty_column_spec(columns);
    if enc.len() <= 4096 {
        "\x1b_Gf=100,a=T"@ + cols + ";"@ + enc + "\x1b\\"@ + "\n"@
    } else {
        kitty_pieces_from(enc, cols, 0) + "\n"@
    }
}

/// The Kitty graphics protocol sequence that shows `png_data`, limited to
/// `term_cols` columns when it is wider.
/// Format: ESC _G key=value,...; <base64 data> ESC \
pub fn kitty_image_escape(png_data: &[u8], term_cols: u32) -> (out: String)
    requires
        encodable(png_data@.len()),
    ensures
        out@ == kitty_escape_text(png_data@, term_cols),
{
    let encoded = encode_base64(png_data);
    kitty_sequence(encoded.as_str(), image_display_cols(png_data, term_cols))
}

/// The Kitty graphics protocol sequence for an image whose base64 text is
/// `encoded`, limited to `columns` columns if given: one escape sequence when
/// the text fits in a chunk of 4096 characters, otherwise one per chunk,
/// followed by a newline.
pub fn kitty_sequence(encoded: &str, columns: Option<u32>) -> (out: String)
    ensures
        out@ == kitty_sequence_text(encoded@, columns),
{
    let enc = chars_of(encoded);
    let mut cols: Vec<char> = Vec::new();
    match columns {
        Some(c) => {
            cols.push(',');
            cols.push('c');
            cols.push('=');
            let digits = decimal_chars(c as u64);
            crate::text::push_all(&mut cols, digits.as_slice());
            assert(",c="@ =~= seq![',', 'c', '=']) by {
                reveal_strlit(",c=");
            }
        },
        None => {},
    }
    assert(cols@ =~= kitty_column_spec(columns));
    let mut out = String::new();
    if enc.len() <= 4096 {
        out.append("\x1b_Gf=100,a=T");
        push_chars(&mut out, &cols);
        out.append(";");
        out.append(encoded);
        out.append("\x1b\\");
        out.append("\n");
        assert(out@ =~= kitty_sequence_text(encoded@, columns));
        return out;
    }
    let ghost whole = kitty_pieces_from(enc@, cols@, 0);
    let mut k: usize = 0;
    let mut start: usize = 0;
    assert(out@ + whole =~= whole);
    while start < enc.len()
        invariant
            enc@ == encoded@,
            cols@ == kitty_column_spec(columns),
            enc.len() > 4096,
            whole == kitty_pieces_from(enc@, cols@, 0),
            start == 4096 * k,
            out@ + kitty_pieces_from(enc@, cols@, k as nat) == whole,
        decreases enc.len() - start,
    {
        let ghost before = out@;
        let more = enc.len() - start > 4096;
        let piece = kitty_piece_exec(&enc, &cols, k, start);
        out.append(piece.as_str());
        assert(out@ + kitty_pieces_from(enc@, cols@, (k + 1) as nat) =~= before
            + kitty_pieces_from(enc@, cols@, k as nat));
        k = k + 1;
        if !more {
            assert(kitty_pieces_from(enc@, cols@, k as nat) =~= Seq::<char>::empty());
            assert(out@ =~= whole);
            out.append("\n");
            return out;
        }
        start = start + 4096;
    }
    assert(kitty_pieces_from(enc@, cols@, k as nat) =~= Seq::<char>::empty());
    out.append("\n");
    out
}

/// The escape sequence for chunk `k`, which starts at `start`.
fn kitty_piece_exec(enc: &Vec<char>, cols: &Vec<char>, k: usize, start: usize) -> (piece: String)
    requires
        start == 4096 * k,
        start < enc.len(),
    ensures
        piece@ == kitty_piece(enc@, cols@, k as nat),
{
    let more = enc.len() - start > 4096;
    let end = if more {
        start + 4096
    } else {
        enc.len()
    };
    let chunk = slice_chars(enc, start, end);
    assert(chunk@ == kitty_chunk(enc@, k as nat));
    let flag = if more {
        '1'
    } else {
        '0'
    };
    assert(seq![flag] == kitty_more(enc@, k as nat));
    let mut out = String::new();
    if k == 0 {
        out.append("\x1b_Gf=100,a=T,m=");
        out.push(flag);
        push_chars(&mut out, cols);
    } else {
        out.append("\x1b_Gm=");
        out.push(flag);
    }
    out.append(";");
    push_chars(&mut out, &chunk);
    out.append("\x1b\\");
    assert(out@ =~= kitty_piece(enc@, cols@, k as nat));
    out
}

/// The iTerm2 width limit, `;width=<cols>`, if there is one.
pub open spec fn iterm2_width_spec(cols: Option<u32>) -> Seq<char> {
    match cols {
        Some(c) => ";width="@ + decimal(c as nat),
        None => seq![],
    }
}

/// What is written to show a PNG with iTerm2's inline image protocol, then a
/// newline.
pub open spec fn iterm2_escape_text(png: Seq<u8>, term_cols: u32) -> Seq<char> {
    iterm2_sequence_text(base64_standard(png), png.len(), image_columns(png, term_cols))
}

/// What is written for an image of `size` bytes whose base64 text is `enc`,
/// shown at most `columns` wide.
pub open spec fn iterm2_sequence_text(enc: Seq<char>, size: nat, columns: Option<u32>) -> Seq<
    char,
> {
    "\x1b]1337;File=inline=1;size="@ + decimal(size) + ";preserveAspectRatio=1"@
        + iterm2_width_spec(columns) + ":"@ + enc + "\x07"@ + "\n"@
}

/// The iTerm2 inline image sequence that shows `png_data`, limited to
/// `term_cols` columns when it is wider.
/// Format: ESC ] 1337;File=inline=1;size=<n>:<base64> BEL
pub fn iterm2_image_escape(png_data: &[u8], term_cols: u32) -> (out: String)
    requires
        encodable(png_data@.len()),
    ensures
        out@ == iterm2_escape_text(png_data@, term_cols),
{
    let encoded = encode_base64(png_data);
    iterm2_sequence(encoded.as_str(), png_data.len(), image_display_cols(png_data, term_cols))
}

/// The iTerm2 inline image sequence for an image of `size` bytes whose base64
/// text is `encoded`, limited to `columns` columns if given, followed by a
/// newline.
pub fn iterm2_sequence(encoded: &str, size: usize, columns: Option<u32>) -> (out: String)
    ensures
        out@ == iterm2_sequence_text(encoded@, size as nat, columns),
{
    let mut out = String::new();
    out.append("\x1b]1337;File=inline=1;size=");
    let digits = decimal_chars(size as u64);
    push_chars(&mut out, &digits);
    out.append(";preserveAspectRatio=1");
    let ghost before = out@;
    match columns {
        Some(c) => {
            out.append(";width=");
            let digits = decimal_chars(c as u64);
            push_chars(&mut out, &digits);
        },
        None => {},
    }
    assert(out@ =~= before + iterm2_width_spec(columns));
    out.append(":");
    out.append(encoded);
    out.append("\x07");
    out.append("\n");
    assert(out@ =~= iterm2_sequence_text(encoded@, size as nat, columns));
    out
}

/// The chunks from `k` on, joined.
pub open spec fn kitty_chunks_joined(enc: Seq<char>, k: nat) -> Seq<char>
    decreases enc.len() + 4096 - 4096 * k,
{
    if 4096 * k >= enc.len() {
        seq![]
    } else {
        kitty_chunk(enc, k) + kitty_chunks_joined(enc, k + 1)
    }
}

/// The Kitty chunks, in order, are exactly the base64 text: nothing of the
/// image is lost, repeated or reordered.
pub proof fn lemma_kitty_chunks_cover(enc: Seq<char>, k: nat)
    requires
        4096 * k <= enc.len(),
    ensures
        kitty_chunks_joined(enc, k) == enc.skip(4096 * k as int),
    decreases enc.len() + 4096 - 4096 * k,
{
    if 4096 * k >= enc.len() {
        assert(enc.skip(4096 * k as int) =~= Seq::<char>::empty());
    } else if 4096 * (k + 1) < enc.len() {
        lemma_kitty_chunks_cover(enc, k + 1);
        assert(kitty_chunk(enc, k) + enc.skip(4096 * (k + 1) as int) =~= enc.skip(4096 * k as int));
    } else {
        assert(kitty_chunks_joined(enc, k + 1) =~= Seq::<char>::empty());
        assert(kitty_chunk(enc, k) + Seq::<char>::empty() =~= enc.skip(4096 * k as int));
    }
}

} // verus!
