use vstd::prelude::*;

verus! {

/// A line that has reached this many bytes is ended before the next pixel
/// is written, which keeps lines under 70 columns.
pub const LINE_BUDGET: usize = 58;

/// ASCII decimal digits of `n`, without leading zeros.
pub open spec fn decimal(n: nat) -> Seq<u8>
    decreases n,
{
    if n < 10 {
        seq![(48 + n) as u8]
    } else {
        decimal(n / 10) + seq![(48 + n % 10) as u8]
    }
}

/// The text of one pixel: its three channels, each followed by a space.
pub open spec fn pixel_token(r: u8, g: u8, b: u8) -> Seq<u8> {
    decimal(r as nat) + seq![32u8] + decimal(g as nat) + seq![32u8] + decimal(b as nat) + seq![32u8]
}

/// Pixel texts of the row of `width` pixels whose channels start at
/// `start` in `channels`.
pub open spec fn row_tokens(channels: Seq<u8>, start: int, width: nat) -> Seq<Seq<u8>> {
    Seq::new(width, |i: int| pixel_token(channels[start + 3 * i], channels[start + 3 * i + 1], channels[start + 3 * i + 2]))
}

/// Lays out pixel texts into lines: `out` holds the finished lines and
/// `line` the one being filled. A line that has reached `LINE_BUDGET` bytes
/// is ended before the next text goes in; the last line is ended too.
pub open spec fn wrap(out: Seq<u8>, line: Seq<u8>, tokens: Seq<Seq<u8>>) -> Seq<u8>
    decreases tokens.len(),
{
    if tokens.len() == 0 {
        out + line + seq![10u8]
    } else if line.len() >= LINE_BUDGET {
        wrap(out + line + seq![10u8], tokens[0], tokens.drop_first())
    } else {
        wrap(out, line + tokens[0], tokens.drop_first())
    }
}

/// The first `rows` rows of the image, each laid out by `wrap`.
pub open spec fn body(channels: Seq<u8>, width: nat, rows: nat) -> Seq<u8>
    decreases rows,
{
    if rows == 0 {
        Seq::empty()
    } else {
        body(channels, width, (rows - 1) as nat) + wrap(Seq::empty(), Seq::empty(), row_tokens(channels, 3 * width * (rows - 1), width))
    }
}

/// Magic token, size and maximum channel value, one per line.
pub open spec fn header(width: nat, height: nat) -> Seq<u8> {
    seq![80u8, 51u8, 10u8] + decimal(width) + seq![32u8] + decimal(height) + seq![10u8, 50u8, 53u8, 53u8, 10u8]
}

/// The whole plain-text image: header, rows, and a closing empty line.
pub open spec fn ppm_text(channels: Seq<u8>, width: nat, height: nat) -> Seq<u8> {
    header(width, height) + body(channels, width, height) + seq![10u8]
}

/// Appends the decimal digits of `n`.
fn push_decimal(out: &mut Vec<u8>, n: usize)
    ensures
        final(out)@ == old(out)@ + decimal(n as nat),
    decreases n,
{
    if n >= 10 {
        push_decimal(out, n / 10);
    }
    out.push((48 + n % 10) as u8);
    proof {
        if n >= 10 {
            assert(old(out)@ + decimal(n as nat) =~= old(out)@ + decimal((n / 10) as nat) + seq![(48 + n % 10) as u8]);
        } else {
            assert(old(out)@ + decimal(n as nat) =~= old(out)@.push((48 + n % 10) as u8));
        }
    }
}

/// Text of one pixel.
fn token(r: u8, g: u8, b: u8) -> (t: Vec<u8>)
    ensures
        t@ == pixel_token(r, g, b),
{
    let mut t: Vec<u8> = Vec::new();
    push_decimal(&mut t, r as usize);
    t.push(32);
    push_decimal(&mut t, g as usize);
    t.push(32);
    push_decimal(&mut t, b as usize);
    t.push(32);
    proof {
        assert(t@ =~= pixel_token(r, g, b));
    }
    t
}

proof fn lemma_channel_in_bounds(x: int, y: int, width: int, height: int)
    requires
        0 <= x < width,
        0 <= y < height,
    ensures
        0 <= 3 * width * y,
        3 * width * y + 3 * x + 2 < 3 * width * height,
{
    assert(3 * width * y + 3 * width <= 3 * width * height) by (nonlinear_arith)
        requires
            0 <= y < height,
            0 <= x < width,
    ;
    assert(0 <= 3 * width * y) by (nonlinear_arith)
        requires
            0 <= y,
            0 <= x < width,
    ;
}

/// Lays out one row whose channels start at `start`.
fn row_text(channels: &Vec<u8>, start: usize, width: usize) -> (r: Vec<u8>)
    requires
        start + 3 * width <= channels.len(),
    ensures
        r@ == wrap(Seq::empty(), Seq::empty(), row_tokens(channels@, start as int, width as nat)),
{
    let ghost tokens = row_tokens(channels@, start as int, width as nat);
    let mut out: Vec<u8> = Vec::new();
    let mut line: Vec<u8> = Vec::new();
    let mut x: usize = 0;
    proof {
        assert(tokens.subrange(0, width as int) =~= tokens);
        assert(out@ =~= Seq::<u8>::empty());
        assert(line@ =~= Seq::<u8>::empty());
    }
    while x < width
        invariant
            x <= width,
            start + 3 * width <= channels.len(),
            tokens == row_tokens(channels@, start as int, width as nat),
            wrap(out@, line@, tokens.subrange(x as int, width as int)) == wrap(Seq::empty(), Seq::empty(), tokens),
        decreases width - x,
    {
        let k = start + 3 * x;
        let mut t = token(channels[k], channels[k + 1], channels[k + 2]);
        let ghost rest = tokens.subrange(x as int, width as int);
        let ghost out0 = out@;
        let ghost line0 = line@;
        proof {
            assert(rest[0] == t@);
            assert(rest.drop_first() =~= tokens.subrange(x + 1, width as int));
        }
        if line.len() >= LINE_BUDGET {
            out.append(&mut line);
            out.push(10);
            line = t;
            proof {
                assert(out@ =~= out0 + line0 + seq![10u8]);
                assert(wrap(out0, line0, rest) == wrap(out@, line@, rest.drop_first()));
            }
        } else {
            line.append(&mut t);
            proof {
                assert(line@ =~= line0 + rest[0]);
                assert(wrap(out0, line0, rest) == wrap(out@, line@, rest.drop_first()));
            }
        }
        x = x + 1;
    }
    let ghost out0 = out@;
    let ghost line0 = line@;
    proof {
        assert(tokens.subrange(width as int, width as int).len() == 0);
    }
    out.append(&mut line);
    out.push(10);
    proof {
        assert(out@ =~= out0 + line0 + seq![10u8]);
    }
    out
}

/// The image as plain-text PPM. `channels` holds three bytes (red, green,
/// blue) per pixel, row by row.
pub fn ppm(width: usize, height: usize, channels: &Vec<u8>) -> (r: Vec<u8>)
    requires
        channels.len() == 3 * width * height,
    ensures
        r@ == ppm_text(channels@, width as nat, height as nat),
{
    let mut out: Vec<u8> = Vec::new();
    out.push(80);
    out.push(51);
    out.push(10);
    push_decimal(&mut out, width);
    out.push(32);
    push_decimal(&mut out, height);
    out.push(10);
    out.push(50);
    out.push(53);
    out.push(53);
    out.push(10);
    proof {
        assert(out@ =~= header(width as nat, height as nat));
        assert(header(width as nat, height as nat) + body(channels@, width as nat, 0) =~= out@);
    }
    let mut y: usize = 0;
    while y < height
        invariant
            y <= height,
            channels.len() == 3 * width * height,
            out@ == header(width as nat, height as nat) + body(channels@, width as nat, y as nat),
        decreases height - y,
    {
        proof {
            if width > 0 {
                lemma_channel_in_bounds((width - 1) as int, y as int, width as int, height as int);
            } else {
                assert(3 * width * y == 0) by (nonlinear_arith)
                    requires
                        width == 0,
                ;
            }
        }
        let start = 3 * width * y;
        let mut row = row_text(channels, start, width);
        out.append(&mut row);
        proof {
            assert(out@ =~= header(width as nat, height as nat) + body(channels@, width as nat, (y + 1) as nat));
        }
        y = y + 1;
    }
    out.push(10);
    out
}

} // verus!
