use vstd::prelude::*;
use crate::canvas::Canvas;

verus! {

/// The longest line that the body of the text may hold, in bytes.
pub const LINE_LIMIT: usize = 70;

/// The decimal digits of `n`, as text.
pub open spec fn decimal(n: nat) -> Seq<u8>
    decreases n,
{
    if n < 10 {
        seq![(48 + n) as u8]
    } else {
        decimal(n / 10).push((48 + n % 10) as u8)
    }
}

/// The three lines before the body: the format's name, the size of the
/// image, and the greatest value of a channel.
pub open spec fn header(width: nat, height: nat) -> Seq<u8> {
    seq![80u8, 51, 10] + decimal(width) + seq![32u8] + decimal(height) + seq![10u8, 50, 53, 53, 10]
}

/// The body while it is written: the lines that are closed, the line that
/// is open, and the number of pixels on the image row at hand.
pub struct Page {
    pub done: Seq<u8>,
    pub line: Seq<u8>,
    pub count: int,
}

/// The page once the first pixel is written.
pub open spec fn first_page(pixel: [u8; 3]) -> Page {
    Page {
        done: Seq::empty(),
        line: decimal(pixel[0] as nat) + seq![32u8] + decimal(pixel[1] as nat) + seq![32u8]
            + decimal(pixel[2] as nat),
        count: 1,
    }
}

/// Writes one channel of a pixel. The open line is closed first where the
/// channel would bring it to the limit, or where the image row is full.
pub open spec fn put_channel(page: Page, channel: u8, width: int) -> Page {
    let text = decimal(channel as nat);
    if page.line.len() + text.len() >= LINE_LIMIT || page.count >= width {
        Page {
            done: page.done + page.line.push(10u8),
            line: text,
            count: if page.count >= width {
                0
            } else {
                page.count
            },
        }
    } else {
        Page { done: page.done, line: page.line.push(32u8) + text, count: page.count }
    }
}

/// Writes the three channels of a pixel.
pub open spec fn put_pixel(page: Page, pixel: [u8; 3], width: int) -> Page {
    let red = put_channel(page, pixel[0], width);
    let green = put_channel(red, pixel[1], width);
    let blue = put_channel(green, pixel[2], width);
    Page { done: blue.done, line: blue.line, count: blue.count + 1 }
}

/// Writes the pixels one after the other.
pub open spec fn put_pixels(page: Page, pixels: Seq<[u8; 3]>, width: int) -> Page
    decreases pixels.len(),
{
    if pixels.len() == 0 {
        page
    } else {
        put_pixel(put_pixels(page, pixels.drop_last(), width), pixels.last(), width)
    }
}

/// The lines of channel values of an image whose rows hold `width` pixels.
pub open spec fn body(width: int, pixels: Seq<[u8; 3]>) -> Seq<u8> {
    if pixels.len() == 0 {
        Seq::empty()
    } else {
        let page = put_pixels(first_page(pixels[0]), pixels.subrange(1, pixels.len() as int), width);
        page.done + page.line.push(10u8)
    }
}

/// The plain-text image of `width` x `height` pixels.
pub open spec fn ppm_text(width: int, height: int, pixels: Seq<[u8; 3]>) -> Seq<u8> {
    header(width as nat, height as nat) + body(width, pixels)
}

/// A channel value takes one to three digits.
pub proof fn lemma_channel_digits(channel: u8)
    ensures
        decimal(channel as nat).len() == if channel < 10 {
            1int
        } else if channel < 100 {
            2int
        } else {
            3int
        },
{
    reveal_with_fuel(decimal, 3);
}

/// Appends the decimal digits of `n` to `out`.
pub fn push_decimal(out: &mut Vec<u8>, n: usize)
    ensures
        final(out)@ == old(out)@ + decimal(n as nat),
    decreases n,
{
    if n >= 10 {
        push_decimal(out, n / 10);
    }
    let digit = (n % 10) as u8;
    out.push(48 + digit);
    proof {
        if n >= 10 {
            assert(final(out)@ =~= old(out)@ + decimal((n / 10) as nat).push((48 + n % 10) as u8));
        } else {
            assert(final(out)@ =~= old(out)@ + seq![(48 + n) as u8]);
        }
    }
}

/// Number of decimal digits of a channel value.
fn channel_digits(channel: u8) -> (digits: usize)
    ensures
        digits == decimal(channel as nat).len(),
        1 <= digits <= 3,
{
    proof {
        lemma_channel_digits(channel);
    }
    if channel < 10 {
        1
    } else if channel < 100 {
        2
    } else {
        3
    }
}

/// Writes one channel: what `put_channel` says, on the three parts of the
/// page.
fn write_channel(
    done: &mut Vec<u8>,
    line: &mut Vec<u8>,
    count: &mut usize,
    channel: u8,
    width: usize,
)
    requires
        old(line)@.len() <= LINE_LIMIT,
    ensures
        (Page { done: final(done)@, line: final(line)@, count: *final(count) as int })
            == put_channel(
            Page { done: old(done)@, line: old(line)@, count: *old(count) as int },
            channel,
            width as int,
        ),
        final(line)@.len() <= LINE_LIMIT,
        *final(count) <= *old(count),
{
    let digits = channel_digits(channel);
    if line.len() + digits >= LINE_LIMIT || *count >= width {
        if *count >= width {
            *count = 0;
        }
        line.push(10u8);
        done.append(line);
        push_decimal(line, channel as usize);
        proof {
            assert(final(line)@ =~= decimal(channel as nat));
            assert(final(done)@ =~= old(done)@ + old(line)@.push(10u8));
        }
    } else {
        line.push(32u8);
        push_decimal(line, channel as usize);
        proof {
            assert(final(line)@ =~= old(line)@.push(32u8) + decimal(channel as nat));
        }
    }
}

impl Canvas<[u8; 3]> {
    /// The image as plain text: the header, then the channel values of the
    /// pixels, row by row, on lines of at most `LINE_LIMIT` bytes.
    pub fn as_ppm(&self) -> (text: Vec<u8>)
        ensures
            text@ == ppm_text(self.spec_width(), self.spec_height(), self.pixels()),
    {
        let width = self.width();
        let pixels = self.as_slice();
        let mut text: Vec<u8> = Vec::new();
        text.push(80u8);
        text.push(51u8);
        text.push(10u8);
        push_decimal(&mut text, width);
        text.push(32u8);
        push_decimal(&mut text, self.height());
        text.push(10u8);
        text.push(50u8);
        text.push(53u8);
        text.push(53u8);
        text.push(10u8);
        assert(text@ =~= header(width as nat, self.spec_height() as nat));
        if pixels.len() == 0 {
            assert(text@ =~= ppm_text(width as int, self.spec_height(), pixels@));
            return text;
        }
        let first = pixels[0];
        let mut done: Vec<u8> = Vec::new();
        let mut line: Vec<u8> = Vec::new();
        push_decimal(&mut line, first[0] as usize);
        line.push(32u8);
        push_decimal(&mut line, first[1] as usize);
        line.push(32u8);
        push_decimal(&mut line, first[2] as usize);
        let mut count: usize = 1;
        proof {
            lemma_channel_digits(first[0]);
            lemma_channel_digits(first[1]);
            lemma_channel_digits(first[2]);
            assert(line@ =~= first_page(first).line);
            assert(pixels@.subrange(1, 1) =~= Seq::<[u8; 3]>::empty());
        }
        let mut k: usize = 1;
        while k < pixels.len()
            invariant
                1 <= k <= pixels@.len(),
                line@.len() <= LINE_LIMIT,
                count <= width || count <= 1,
                (Page { done: done@, line: line@, count: count as int }) == put_pixels(
                    first_page(pixels@[0]),
                    pixels@.subrange(1, k as int),
                    width as int,
                ),
            decreases pixels@.len() - k,
        {
            let pixel = pixels[k];
            proof {
                let seen = pixels@.subrange(1, k as int + 1);
                assert(seen.drop_last() =~= pixels@.subrange(1, k as int));
                assert(seen.last() == pixel);
            }
            write_channel(&mut done, &mut line, &mut count, pixel[0], width);
            write_channel(&mut done, &mut line, &mut count, pixel[1], width);
            write_channel(&mut done, &mut line, &mut count, pixel[2], width);
            count = count + 1;
            k = k + 1;
        }
        proof {
            assert(pixels@.subrange(1, k as int) =~= pixels@.subrange(1, pixels@.len() as int));
        }
        line.push(10u8);
        text.append(&mut done);
        text.append(&mut line);
        proof {
            let page = put_pixels(
                first_page(pixels@[0]),
                pixels@.subrange(1, pixels@.len() as int),
                width as int,
            );
            assert(text@ =~= header(width as nat, self.spec_height() as nat) + (page.done
                + page.line.push(10u8)));
        }
        text
    }
}

/// No byte of `text` from `from` up to `to` is a line break.
pub open spec fn no_break(text: Seq<u8>, from: int, to: int) -> bool {
    forall|k: int| from <= k < to ==> text[k] != 10u8
}

/// No line of `text` is longer than `limit` bytes.
pub open spec fn lines_within(text: Seq<u8>, limit: int) -> bool {
    forall|from: int, to: int|
        0 <= from <= to <= text.len() && #[trigger] no_break(text, from, to) ==> to - from
            <= limit
}

/// The lines that are closed keep to the limit and end in a line break,
/// and the open line keeps to the limit and holds no line break.
pub open spec fn page_in_order(page: Page) -> bool {
    &&& page.line.len() <= LINE_LIMIT
    &&& no_break(page.line, 0, page.line.len() as int)
    &&& lines_within(page.done, LINE_LIMIT as int)
    &&& page.done.len() > 0 ==> page.done.last() == 10u8
}

/// The text of a number is made of digits.
pub proof fn lemma_decimal_is_digits(n: nat)
    ensures
        decimal(n).len() >= 1,
        forall|k: int| 0 <= k < decimal(n).len() ==> 48 <= #[trigger] decimal(n)[k] <= 57,
    decreases n,
{
    if n >= 10 {
        lemma_decimal_is_digits(n / 10);
    }
}

/// Closing the open line of a page in order gives lines within the limit.
proof fn lemma_close_line(page: Page)
    requires
        page_in_order(page),
    ensures
        lines_within(page.done + page.line.push(10u8), LINE_LIMIT as int),
        (page.done + page.line.push(10u8)).last() == 10u8,
{
    let text = page.done + page.line.push(10u8);
    let split = page.done.len() as int;
    assert forall|from: int, to: int|
        0 <= from <= to <= text.len() && #[trigger] no_break(text, from, to) implies to - from
        <= LINE_LIMIT by {
        if to <= split {
            assert forall|k: int| from <= k < to implies page.done[k] != 10u8 by {
                assert(text[k] == page.done[k]);
            }
            assert(no_break(page.done, from, to));
        } else if from < split {
            assert(text[split - 1] == page.done.last());
        } else {
            if to == text.len() {
                assert(text[to - 1] == 10u8);
            }
        }
    }
}

/// Writing a channel keeps the page in order.
proof fn lemma_put_channel_in_order(page: Page, channel: u8, width: int)
    requires
        page_in_order(page),
    ensures
        page_in_order(put_channel(page, channel, width)),
{
    let text = decimal(channel as nat);
    lemma_channel_digits(channel);
    lemma_decimal_is_digits(channel as nat);
    if page.line.len() + text.len() >= LINE_LIMIT || page.count >= width {
        lemma_close_line(page);
    } else {
        let line = page.line.push(32u8) + text;
        assert forall|k: int| 0 <= k < line.len() implies line[k] != 10u8 by {
            if k < page.line.len() {
                assert(line[k] == page.line[k]);
            } else if k > page.line.len() {
                assert(line[k] == text[k - page.line.len() - 1]);
            }
        }
    }
}

/// Writing pixels keeps the page in order.
proof fn lemma_put_pixels_in_order(page: Page, pixels: Seq<[u8; 3]>, width: int)
    requires
        page_in_order(page),
    ensures
        page_in_order(put_pixels(page, pixels, width)),
    decreases pixels.len(),
{
    if pixels.len() > 0 {
        lemma_put_pixels_in_order(page, pixels.drop_last(), width);
        let before = put_pixels(page, pixels.drop_last(), width);
        let pixel = pixels.last();
        lemma_put_channel_in_order(before, pixel[0], width);
        let red = put_channel(before, pixel[0], width);
        lemma_put_channel_in_order(red, pixel[1], width);
        let green = put_channel(red, pixel[1], width);
        lemma_put_channel_in_order(green, pixel[2], width);
    }
}

/// No line of the body is longer than `LINE_LIMIT` bytes, whatever the
/// image holds.
pub proof fn body_lines_keep_to_limit(width: int, pixels: Seq<[u8; 3]>)
    ensures
        lines_within(body(width, pixels), LINE_LIMIT as int),
{
    if pixels.len() > 0 {
        let first = first_page(pixels[0]);
        lemma_channel_digits(pixels[0][0]);
        lemma_channel_digits(pixels[0][1]);
        lemma_channel_digits(pixels[0][2]);
        lemma_decimal_is_digits(pixels[0][0] as nat);
        lemma_decimal_is_digits(pixels[0][1] as nat);
        lemma_decimal_is_digits(pixels[0][2] as nat);
        assert(page_in_order(first)) by {
            let red = decimal(pixels[0][0] as nat);
            let green = decimal(pixels[0][1] as nat);
            let blue = decimal(pixels[0][2] as nat);
            assert forall|k: int| 0 <= k < first.line.len() implies first.line[k] != 10u8 by {
                if k < red.len() {
                    assert(first.line[k] == red[k]);
                } else if k == red.len() {
                } else if k < red.len() + 1 + green.len() {
                    assert(first.line[k] == green[k - red.len() - 1]);
                } else if k == red.len() + 1 + green.len() {
                } else {
                    assert(first.line[k] == blue[k - red.len() - green.len() - 2]);
                }
            }
        }
        lemma_put_pixels_in_order(first, pixels.subrange(1, pixels.len() as int), width);
        lemma_close_line(put_pixels(first, pixels.subrange(1, pixels.len() as int), width));
    }
}

/// The text with each line break turned into a space.
pub open spec fn unbroken(text: Seq<u8>) -> Seq<u8> {
    text.map_values(
        |byte: u8|
            if byte == 10u8 {
                32u8
            } else {
                byte
            },
    )
}

/// The three channel values of a pixel, each followed by a space.
pub open spec fn pixel_values(pixel: [u8; 3]) -> Seq<u8> {
    decimal(pixel[0] as nat).push(32u8) + decimal(pixel[1] as nat).push(32u8) + decimal(
        pixel[2] as nat,
    ).push(32u8)
}

/// The channel values of the pixels in their order, each followed by a
/// space.
pub open spec fn values_in_order(pixels: Seq<[u8; 3]>) -> Seq<u8>
    decreases pixels.len(),
{
    if pixels.len() == 0 {
        Seq::empty()
    } else {
        values_in_order(pixels.drop_last()) + pixel_values(pixels.last())
    }
}

/// The text of a number holds no line break to turn.
proof fn lemma_unbroken_decimal(n: nat)
    ensures
        unbroken(decimal(n)) == decimal(n),
{
    lemma_decimal_is_digits(n);
    assert(unbroken(decimal(n)) =~= decimal(n));
}

/// Writing a channel adds a separator and the value to what the page
/// holds, whether or not a line is closed.
proof fn lemma_put_channel_values(page: Page, channel: u8, width: int)
    ensures
        unbroken(put_channel(page, channel, width).done + put_channel(page, channel, width).line)
            == unbroken(page.done + page.line).push(32u8) + decimal(channel as nat),
{
    let text = decimal(channel as nat);
    let next = put_channel(page, channel, width);
    lemma_unbroken_decimal(channel as nat);
    assert(unbroken(next.done + next.line) =~= unbroken(page.done + page.line).push(32u8)
        + unbroken(text));
}

/// Writing a pixel adds its three values to what the page holds.
proof fn lemma_put_pixel_values(page: Page, pixel: [u8; 3], width: int)
    ensures
        unbroken(put_pixel(page, pixel, width).done + put_pixel(page, pixel, width).line).push(
            32u8,
        ) == unbroken(page.done + page.line).push(32u8) + pixel_values(pixel),
{
    let red = put_channel(page, pixel[0], width);
    let green = put_channel(red, pixel[1], width);
    let blue = put_channel(green, pixel[2], width);
    lemma_put_channel_values(page, pixel[0], width);
    lemma_put_channel_values(red, pixel[1], width);
    lemma_put_channel_values(green, pixel[2], width);
    assert(unbroken(blue.done + blue.line).push(32u8) =~= unbroken(page.done + page.line).push(
        32u8,
    ) + pixel_values(pixel));
}

/// Writing pixels adds their values, in their order, to what the page
/// holds.
proof fn lemma_put_pixels_values(page: Page, pixels: Seq<[u8; 3]>, width: int)
    ensures
        unbroken(put_pixels(page, pixels, width).done + put_pixels(page, pixels, width).line).push(
            32u8,
        ) == unbroken(page.done + page.line).push(32u8) + values_in_order(pixels),
    decreases pixels.len(),
{
    if pixels.len() == 0 {
        assert(unbroken(page.done + page.line).push(32u8) + values_in_order(pixels)
            =~= unbroken(page.done + page.line).push(32u8));
    } else {
        let before = put_pixels(page, pixels.drop_last(), width);
        lemma_put_pixels_values(page, pixels.drop_last(), width);
        lemma_put_pixel_values(before, pixels.last(), width);
        assert(unbroken(page.done + page.line).push(32u8) + values_in_order(pixels.drop_last())
            + pixel_values(pixels.last()) =~= unbroken(page.done + page.line).push(32u8)
            + values_in_order(pixels));
    }
}

/// The values of a list of pixels are those of its first pixel, then those
/// of the rest.
proof fn lemma_values_from_the_front(pixels: Seq<[u8; 3]>)
    requires
        pixels.len() > 0,
    ensures
        values_in_order(pixels) == pixel_values(pixels[0]) + values_in_order(
            pixels.subrange(1, pixels.len() as int),
        ),
    decreases pixels.len(),
{
    let rest = pixels.subrange(1, pixels.len() as int);
    if pixels.len() == 1 {
        reveal_with_fuel(values_in_order, 2);
        assert(pixels.drop_last() =~= Seq::<[u8; 3]>::empty());
        assert(rest =~= Seq::<[u8; 3]>::empty());
        assert(pixels.last() == pixels[0]);
        assert(values_in_order(pixels) =~= pixel_values(pixels[0]) + values_in_order(rest));
    } else {
        lemma_values_from_the_front(pixels.drop_last());
        assert(pixels.drop_last().subrange(1, pixels.len() - 1) =~= rest.drop_last());
        assert(rest.last() == pixels.last());
        assert(values_in_order(pixels) =~= pixel_values(pixels[0]) + values_in_order(rest));
    }
}

/// The body holds the channel values of the pixels in their order and
/// nothing else: with each line break read as a space, it is the values,
/// each followed by one space.
pub proof fn body_holds_the_values_in_order(width: int, pixels: Seq<[u8; 3]>)
    ensures
        unbroken(body(width, pixels)) == values_in_order(pixels),
{
    if pixels.len() == 0 {
        assert(unbroken(body(width, pixels)) =~= values_in_order(pixels));
    } else {
        let first = first_page(pixels[0]);
        let rest = pixels.subrange(1, pixels.len() as int);
        let page = put_pixels(first, rest, width);
        lemma_put_pixels_values(first, rest, width);
        lemma_unbroken_decimal(pixels[0][0] as nat);
        lemma_unbroken_decimal(pixels[0][1] as nat);
        lemma_unbroken_decimal(pixels[0][2] as nat);
        assert(unbroken(first.done + first.line).push(32u8) =~= pixel_values(pixels[0])) by {
            assert(unbroken(first.done + first.line) =~= unbroken(decimal(pixels[0][0] as nat)).push(
                32u8,
            ) + unbroken(decimal(pixels[0][1] as nat)).push(32u8) + unbroken(
                decimal(pixels[0][2] as nat),
            ));
        }
        lemma_values_from_the_front(pixels);
        assert(unbroken(body(width, pixels)) =~= unbroken(page.done + page.line).push(32u8));
    }
}

/// The text ends with a line break, whatever the image holds.
pub proof fn ppm_text_ends_with_line_break(width: int, height: int, pixels: Seq<[u8; 3]>)
    ensures
        ppm_text(width, height, pixels).len() > 0,
        ppm_text(width, height, pixels).last() == 10u8,
{
}

} // verus!
