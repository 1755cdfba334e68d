//! Pictures in layers: a picture is sent as the digits of its layers, one
//! after the other, and the layers are laid over each other.

use vstd::prelude::*;
use crate::text::push_char;

verus! {

/// One layer of a picture: its pixels row by row, each row `width` pixels
/// wide.
#[derive(Debug, Clone)]
pub struct Layer {
    width: usize,
    content: Vec<u8>,
}

/// How many of the first `n` bytes from `position` on are there and are
/// digits, or characters after the digits: how far a layer can be read.
pub open spec fn readable(input: Seq<u8>, position: int, n: int) -> int
    decreases n,
{
    if n <= 0 {
        0
    } else {
        let before = readable(input, position, n - 1);
        if before == n - 1 && position + n - 1 < input.len() && input[position + n - 1] >= 48 {
            n
        } else {
            before
        }
    }
}

/// What can be read is no more than what is asked for, and what is there.
pub proof fn lemma_readable_is_bounded(input: Seq<u8>, position: int, n: int)
    requires
        0 <= position <= input.len(),
    ensures
        0 <= readable(input, position, n),
        readable(input, position, n) <= n || n < 0,
        position + readable(input, position, n) <= input.len(),
        forall|i: int|
            0 <= i < readable(input, position, n) ==> #[trigger] input[position + i] >= 48,
    decreases n,
{
    if n > 0 {
        lemma_readable_is_bounded(input, position, n - 1);
    }
}

/// The pixels that `n` bytes from `position` on stand for: each byte less
/// the digit zero.
pub open spec fn pixels_at(input: Seq<u8>, position: int, n: int) -> Seq<u8> {
    Seq::new(n as nat, |i: int| (input[position + i] - 48) as u8)
}

/// How often `value` occurs among the pixels.
pub open spec fn count_of(pixels: Seq<u8>, value: u8) -> nat
    decreases pixels.len(),
{
    if pixels.len() == 0 {
        0
    } else {
        count_of(pixels.drop_last(), value) + if pixels.last() == value {
            1nat
        } else {
            0nat
        }
    }
}

/// A value occurs no more often than there are pixels.
pub proof fn lemma_count_of_is_bounded(pixels: Seq<u8>, value: u8)
    ensures
        count_of(pixels, value) <= pixels.len(),
    decreases pixels.len(),
{
    if pixels.len() > 0 {
        lemma_count_of_is_bounded(pixels.drop_last(), value);
    }
}

/// The character that shows a pixel: a blank for 0, `#` for 1, and the digit
/// itself for every other value.
pub open spec fn glyph(pixel: u8) -> char
    recommends
        pixel <= 207,
{
    if pixel == 0 {
        ' '
    } else if pixel == 1 {
        '#'
    } else {
        ((48 + pixel) as u8) as char
    }
}

/// The text of the first `rows` rows: the characters of each row, and a
/// line feed after each.
pub open spec fn rendered(pixels: Seq<u8>, width: int, rows: int) -> Seq<char>
    decreases rows,
{
    if rows <= 0 {
        Seq::<char>::empty()
    } else {
        rendered(pixels, width, rows - 1) + Seq::new(
            width as nat,
            |col: int| glyph(pixels[(rows - 1) * width + col]),
        ).push('\n')
    }
}

impl Layer {
    /// The width of a row.
    pub closed spec fn spec_width(&self) -> int {
        self.width as int
    }

    /// The pixels, row by row.
    pub closed spec fn pixels(&self) -> Seq<u8> {
        self.content@
    }

    /// The place of the pixel at `col` in `row` among the pixels.
    pub open spec fn offset(&self, row: int, col: int) -> int {
        row * self.spec_width() + col
    }

    /// The number of whole rows.
    pub open spec fn spec_height(&self) -> int {
        self.pixels().len() as int / self.spec_width()
    }

    /// Whether every pixel has a character to show it.
    pub open spec fn printable(&self) -> bool {
        forall|i: int| 0 <= i < self.pixels().len() ==> #[trigger] self.pixels()[i] <= 207
    }

    /// Reads a layer of `height` rows of `width` pixels from `input`,
    /// beginning at `position`, one byte for each pixel. Returns `None` where
    /// the input ends before the layer does, or a byte lies below the digit
    /// zero. The position moves past what was read, the byte that was
    /// refused included.
    pub fn from_iterator(input: &[u8], position: &mut usize, width: usize, height: usize) -> (layer:
        Option<Self>)
        requires
            *old(position) <= input@.len(),
            height * width <= usize::MAX,
        ensures
            layer is Some <==> readable(input@, *old(position) as int, height * width) == height
                * width,
            layer matches Some(l) ==> {
                &&& l.spec_width() == width
                &&& l.pixels() == pixels_at(input@, *old(position) as int, height * width)
                &&& l.printable()
                &&& *final(position) == *old(position) + height * width
            },
            layer is None ==> *final(position) == *old(position) + readable(
                input@,
                *old(position) as int,
                height * width,
            ) + if *old(position) + readable(input@, *old(position) as int, height * width)
                < input@.len() {
                1int
            } else {
                0int
            },
            *final(position) <= input@.len(),
    {
        let mut final_vec: Vec<u8> = Vec::with_capacity(height);
        let count = height * width;
        let ghost start = *position as int;
        let mut read: usize = 0;
        while read < count
            invariant
                read <= count,
                count == height * width,
                start == *old(position),
                start + read <= input@.len(),
                *position == start + read,
                readable(input@, start, read as int) == read,
                final_vec@ == pixels_at(input@, start, read as int),
                forall|i: int| 0 <= i < read ==> #[trigger] final_vec@[i] <= 207,
            decreases count - read,
        {
            proof {
                lemma_readable_stops(input@, start, read + 1, count as int);
            }
            if *position >= input.len() {
                return None;
            }
            let byte = input[*position];
            *position += 1;
            let pixel = match byte.checked_sub(48) {
                Some(pixel) => pixel,
                None => {
                    return None;
                },
            };
            final_vec.push(pixel);
            read += 1;
        }
        Some(Self { width, content: final_vec })
    }

    /// The number of whole rows.
    pub fn get_height(&self) -> (height: usize)
        requires
            self.spec_width() > 0,
        ensures
            height == self.spec_height(),
    {
        self.content.len() / self.get_width()
    }

    /// The width of a row.
    pub fn get_width(&self) -> (width: usize)
        ensures
            width == self.spec_width(),
    {
        self.width
    }

    /// The pixel at `col` in `row`, where the layer has one there. A column
    /// past the width counts on into the next row.
    pub fn get(&self, row: usize, col: usize) -> (pixel: Option<&u8>)
        ensures
            pixel == if self.offset(row as int, col as int) < self.pixels().len() {
                Some(&self.pixels()[self.offset(row as int, col as int)])
            } else {
                None
            },
    {
        match self.index_of(row, col) {
            Some(index) => Some(&self.content[index]),
            None => None,
        }
    }

    /// The pixel at `col` in `row`, to be changed, where the layer has one
    /// there.
    pub fn get_mut(&mut self, row: usize, col: usize) -> (pixel: Option<&mut u8>)
        ensures
            match pixel {
                Some(p) => {
                    &&& old(self).offset(row as int, col as int) < old(self).pixels().len()
                    &&& *p == old(self).pixels()[old(self).offset(row as int, col as int)]
                    &&& final(self).spec_width() == old(self).spec_width()
                    &&& final(self).pixels() == old(self).pixels().update(
                        old(self).offset(row as int, col as int),
                        *final(p),
                    )
                },
                None => {
                    &&& old(self).offset(row as int, col as int) >= old(self).pixels().len()
                    &&& final(self).spec_width() == old(self).spec_width()
                    &&& final(self).pixels() == old(self).pixels()
                },
            },
    {
        match self.index_of(row, col) {
            Some(index) => Some(&mut self.content[index]),
            None => None,
        }
    }

    /// The place of a pixel among the pixels of the layer.
    fn index_of(&self, row: usize, col: usize) -> (index: Option<usize>)
        ensures
            match index {
                Some(i) => i == self.offset(row as int, col as int) && i < self.pixels().len(),
                None => self.offset(row as int, col as int) >= self.pixels().len(),
            },
    {
        assert(row * self.width <= 0xffff_ffff_ffff_ffff * 0xffff_ffff_ffff_ffff)
            by (nonlinear_arith)
            requires
                0 <= row <= 0xffff_ffff_ffff_ffff,
                0 <= self.width <= 0xffff_ffff_ffff_ffff,
        ;
        let index = (row as u128) * (self.width as u128) + (col as u128);
        if index < self.content.len() as u128 {
            Some(index as usize)
        } else {
            None
        }
    }

    /// An iterator over the pixels, row by row.
    pub fn iter(&self) -> (pixels: core::slice::Iter<'_, u8>)
        ensures
            vstd::std_specs::iter::IteratorSpec::remaining(&pixels) == self.pixels().as_ref(),
    {
        self.content.iter()
    }

    /// How often `value` occurs among the pixels.
    pub fn count(&self, value: u8) -> (n: usize)
        ensures
            n == count_of(self.pixels(), value),
    {
        let mut n: usize = 0;
        let mut i: usize = 0;
        while i < self.content.len()
            invariant
                i <= self.content@.len(),
                n == count_of(self.content@.take(i as int), value),
                n <= i,
            decreases self.content@.len() - i,
        {
            assert(self.content@.take(i + 1).drop_last() =~= self.content@.take(i as int));
            if self.content[i] == value {
                n += 1;
            }
            i += 1;
        }
        assert(self.content@.take(self.content@.len() as int) =~= self.content@);
        n
    }

    /// The layer as text: a line for each whole row, with a blank for 0, `#`
    /// for 1 and the digit for every other pixel.
    pub fn render(&self) -> (text: String)
        requires
            self.spec_width() > 0,
            self.printable(),
        ensures
            text@ == rendered(self.pixels(), self.spec_width(), self.spec_height()),
    {
        let mut text = String::new();
        let height = self.get_height();
        let width = self.get_width();
        let mut row: usize = 0;
        while row < height
            invariant
                row <= height,
                width == self.spec_width(),
                width > 0,
                height == self.spec_height(),
                self.printable(),
                text@ == rendered(self.pixels(), width as int, row as int),
            decreases height - row,
        {
            let ghost before = text@;
            let mut col: usize = 0;
            assert(height * width <= self.pixels().len()) by (nonlinear_arith)
                requires
                    height == self.pixels().len() as int / (width as int),
                    width > 0,
            ;
            assert((row + 1) * width <= height * width) by (nonlinear_arith)
                requires
                    row < height,
                    width > 0,
            ;
            assert((row + 1) * width == row * width + width) by (nonlinear_arith);
            while col < width
                invariant
                    col <= width,
                    row * width + width <= self.pixels().len(),
                    width == self.spec_width(),
                    self.printable(),
                    text@ == before + Seq::new(
                        col as nat,
                        |c: int| glyph(self.pixels()[row * width + c]),
                    ),
                    self.offset(row as int, col as int) == row * width + col,
                decreases width - col,
            {
                let pixel = match self.get(row, col) {
                    Some(pixel) => *pixel,
                    None => 0,
                };
                let c = if pixel == 0 {
                    ' '
                } else if pixel == 1 {
                    '#'
                } else {
                    (48 + pixel) as char
                };
                push_char(&mut text, c);
                col += 1;
            }
            push_char(&mut text, '\n');
            row += 1;
        }
        text
    }
}

/// Where reading stops early, asking for more reads no more.
proof fn lemma_readable_stops(input: Seq<u8>, position: int, n: int, more: int)
    requires
        0 <= n <= more,
    ensures
        readable(input, position, n) < n ==> readable(input, position, more) == readable(
            input,
            position,
            n,
        ),
        readable(input, position, n) == n ==> readable(input, position, more) >= n,
    decreases more - n,
{
    if n < more {
        lemma_readable_stops(input, position, n, more - 1);
    }
}

/// No more is read than asked for.
proof fn lemma_readable_upper(input: Seq<u8>, position: int, n: int)
    ensures
        readable(input, position, n) <= n || n < 0,
        readable(input, position, n) >= 0,
    decreases n,
{
    if n > 0 {
        lemma_readable_upper(input, position, n - 1);
    }
}

/// Whether `layer` is what the bytes of `input` at the place of layer `k`
/// stand for, each layer taking `size` bytes.
pub open spec fn is_layer_of(input: Seq<u8>, layer: Layer, k: int, width: int, size: int) -> bool {
    &&& (k + 1) * size <= input.len()
    &&& layer.spec_width() == width
    &&& layer.pixels() == pixels_at(input, k * size, size)
    &&& layer.printable()
}

/// Reads layers of `height` rows of `width` pixels from `input`, one after
/// the other, for as long as a whole layer can be read. What follows the last
/// whole layer is left out.
pub fn parse_with(input: &[u8], width: usize, height: usize) -> (layers: Vec<Layer>)
    requires
        0 < height * width <= usize::MAX,
    ensures
        forall|k: int|
            0 <= k < layers@.len() ==> is_layer_of(
                input@,
                #[trigger] layers@[k],
                k,
                width as int,
                height * width,
            ),
        layers@.len() * (height * width) <= input@.len(),
        readable(input@, (layers@.len() * (height * width)) as int, height * width) < height
            * width,
{
    let mut position: usize = 0;
    let mut result: Vec<Layer> = Vec::new();
    let ghost size = height * width;
    assert(0 * size == 0) by (nonlinear_arith);
    loop
        invariant_except_break
            position == result@.len() * size,
        invariant
            size == height * width,
            0 < size <= usize::MAX,
            result@.len() * size <= input@.len(),
            position <= input@.len(),
            forall|k: int|
                0 <= k < result@.len() ==> is_layer_of(
                    input@,
                    #[trigger] result@[k],
                    k,
                    width as int,
                    size,
                ),
        ensures
            readable(input@, (result@.len() * size) as int, size) < size,
        decreases input@.len() - position,
    {
        let ghost before = position as int;
        let ghost count = result@.len();
        proof {
            lemma_readable_is_bounded(input@, before, size);
            assert((count + 1) * size == count * size + size) by (nonlinear_arith);
        }
        match Layer::from_iterator(input, &mut position, width, height) {
            Some(layer) => {
                result.push(layer);
            },
            None => {
                break ;
            },
        }
    }
    result
}

/// Reads the layers of a picture that is 25 pixels wide and 6 pixels high.
pub fn parse(input: &[u8]) -> (layers: Vec<Layer>)
    ensures
        forall|k: int|
            0 <= k < layers@.len() ==> is_layer_of(input@, #[trigger] layers@[k], k, 25, 150),
        layers@.len() * 150 <= input@.len(),
        readable(input@, (layers@.len() * 150) as int, 150) < 150,
{
    parse_with(input, 25, 6)
}

/// Whether layer `m` has the fewest pixels of value 0, and is the first of
/// the layers that have so few.
pub open spec fn is_first_with_fewest_zeros(layers: Seq<Layer>, m: int) -> bool {
    &&& 0 <= m < layers.len()
    &&& forall|k: int|
        0 <= k < layers.len() ==> count_of(layers[m].pixels(), 0) <= count_of(
            #[trigger] layers[k].pixels(),
            0,
        )
    &&& forall|k: int|
        0 <= k < m ==> count_of(layers[m].pixels(), 0) < count_of(#[trigger] layers[k].pixels(), 0)
}

/// The number of pixels of value 1 times the number of pixels of value 2, in
/// the first of the layers that have the fewest pixels of value 0.
pub fn part1(layers: &[Layer]) -> (product: usize)
    requires
        layers@.len() > 0,
        forall|k: int|
            0 <= k < layers@.len() ==> count_of(#[trigger] layers@[k].pixels(), 1) * count_of(
                layers@[k].pixels(),
                2,
            ) <= usize::MAX,
    ensures
        exists|m: int|
            is_first_with_fewest_zeros(layers@, m) && product == count_of(
                (#[trigger] layers@[m]).pixels(),
                1,
            ) * count_of(layers@[m].pixels(), 2),
{
    let mut best: usize = 0;
    let mut fewest: usize = layers[0].count(0);
    let mut i: usize = 1;
    while i < layers.len()
        invariant
            1 <= i <= layers@.len(),
            best < i,
            fewest == count_of(layers@[best as int].pixels(), 0),
            forall|k: int|
                0 <= k < i ==> fewest <= count_of(#[trigger] layers@[k].pixels(), 0),
            forall|k: int|
                0 <= k < best ==> fewest < count_of(#[trigger] layers@[k].pixels(), 0),
        decreases layers@.len() - i,
    {
        let zeros = layers[i].count(0);
        if zeros < fewest {
            best = i;
            fewest = zeros;
        }
        i += 1;
    }
    let less_0 = &layers[best];
    less_0.count(1) * less_0.count(2)
}

/// The pixel that shows through at place `i` when the layers lie on each
/// other, the first of them on top: that of the first layer whose pixel
/// there is not 2, and 2 where every layer has a 2.
pub open spec fn visible_at(layers: Seq<Layer>, i: int) -> u8
    decreases layers.len(),
{
    if layers.len() == 0 {
        2
    } else if layers[0].pixels()[i] != 2 {
        layers[0].pixels()[i]
    } else {
        visible_at(layers.drop_first(), i)
    }
}

/// Whether the layers have the width and the number of pixels of the first
/// of them.
pub open spec fn same_size(layers: Seq<Layer>) -> bool {
    forall|k: int|
        0 <= k < layers.len() ==> (#[trigger] layers[k]).spec_width() == layers[0].spec_width()
            && layers[k].pixels().len() == layers[0].pixels().len()
}

/// The pixels that show through when the layers lie on each other, for the
/// whole rows of the picture.
pub open spec fn visible(layers: Seq<Layer>) -> Seq<u8> {
    Seq::new(
        (layers[0].spec_height() * layers[0].spec_width()) as nat,
        |i: int| visible_at(layers, i),
    )
}

/// What shows through below the first `k` layers is what shows through all
/// of them, where those first layers hold a 2.
proof fn lemma_visible_at_skips(layers: Seq<Layer>, i: int, k: int)
    requires
        0 <= k <= layers.len(),
        forall|j: int| 0 <= j < k ==> (#[trigger] layers[j]).pixels()[i] == 2,
    ensures
        visible_at(layers, i) == visible_at(layers.subrange(k, layers.len() as int), i),
    decreases k,
{
    if k == 0 {
        assert(layers.subrange(0, layers.len() as int) =~= layers);
    } else {
        let rest = layers.drop_first();
        lemma_visible_at_skips(rest, i, k - 1);
        assert(rest.subrange(k - 1, rest.len() as int) =~= layers.subrange(
            k,
            layers.len() as int,
        ));
    }
}

/// The picture that the layers make when they lie on each other, as text: a
/// line feed, and then a line for each row. Where every layer is transparent,
/// the digit 2 shows.
pub fn part2(layers: &[Layer]) -> (picture: String)
    requires
        layers@.len() > 0,
        layers@[0].spec_width() > 0,
        same_size(layers@),
        forall|k: int| 0 <= k < layers@.len() ==> (#[trigger] layers@[k]).printable(),
    ensures
        picture@ == seq!['\n'] + rendered(
            visible(layers@),
            layers@[0].spec_width(),
            layers@[0].spec_height(),
        ),
{
    let width = layers[0].get_width();
    let height = layers[0].get_height();
    assert(height * width <= layers@[0].pixels().len()) by (nonlinear_arith)
        requires
            height == layers@[0].pixels().len() as int / (width as int),
            width > 0,
    ;
    let mut content: Vec<u8> = Vec::new();
    let mut row: usize = 0;
    while row < height
        invariant
            row <= height,
            layers@.len() > 0,
            width == layers@[0].spec_width(),
            width > 0,
            height == layers@[0].spec_height(),
            height * width <= layers@[0].pixels().len(),
            same_size(layers@),
            forall|k: int| 0 <= k < layers@.len() ==> (#[trigger] layers@[k]).printable(),
            content@.len() == row * width,
            forall|i: int| 0 <= i < content@.len() ==> #[trigger] content@[i] == visible_at(
                layers@,
                i,
            ),
            forall|i: int| 0 <= i < content@.len() ==> #[trigger] content@[i] <= 207,
        decreases height - row,
    {
        assert((row + 1) * width <= height * width) by (nonlinear_arith)
            requires
                row < height,
                width > 0,
        ;
        assert((row + 1) * width == row * width + width) by (nonlinear_arith);
        let mut col: usize = 0;
        while col < width
            invariant
                col <= width,
                row * width + width <= layers@[0].pixels().len(),
                layers@.len() > 0,
                width == layers@[0].spec_width(),
                same_size(layers@),
                forall|k: int| 0 <= k < layers@.len() ==> (#[trigger] layers@[k]).printable(),
                content@.len() == row * width + col,
                forall|i: int| 0 <= i < content@.len() ==> #[trigger] content@[i] == visible_at(
                    layers@,
                    i,
                ),
                forall|i: int| 0 <= i < content@.len() ==> #[trigger] content@[i] <= 207,
            decreases width - col,
        {
            let ghost place = row * width + col;
            let mut target: u8 = 2;
            let mut k: usize = 0;
            assert(0 <= place < layers@[0].pixels().len()) by (nonlinear_arith)
                requires
                    place == row * width + col,
                    col < width,
                    row * width + width <= layers@[0].pixels().len(),
            ;
            while k < layers.len()
                invariant_except_break
                    target == 2,
                invariant
                    k <= layers@.len(),
                    layers@.len() > 0,
                    same_size(layers@),
                    width == layers@[0].spec_width(),
                    place == row * width + col,
                    0 <= place < layers@[0].pixels().len(),
                    forall|j: int| 0 <= j < layers@.len() ==> (#[trigger] layers@[j]).printable(),
                    forall|j: int| 0 <= j < k ==> (#[trigger] layers@[j]).pixels()[place] == 2,
                    k == layers@.len() ==> visible_at(layers@, place) == 2,
                ensures
                    target == visible_at(layers@, place),
                    target <= 207,
                decreases layers@.len() - k,
            {
                let layer = &layers[k];
                let color = match layer.get(row, col) {
                    Some(color) => *color,
                    None => 2,
                };
                proof {
                    lemma_visible_at_skips(layers@, place, k as int);
                    let rest = layers@.subrange(k as int, layers@.len() as int);
                    if color == 2 {
                        lemma_visible_at_skips(layers@, place, k + 1);
                    }
                }
                if color != 2 {
                    target = color;
                    break ;
                }
                k += 1;
            }
            content.push(target);
            col += 1;
        }
        row += 1;
    }
    let final_layer = Layer { width, content };
    assert(final_layer.pixels() =~= visible(layers@));
    assert(final_layer.spec_height() == height) by (nonlinear_arith)
        requires
            final_layer.spec_height() == (height * width) / (width as int),
            width > 0,
    ;
    let body = final_layer.render();
    let mut picture = String::new();
    push_char(&mut picture, '\n');
    picture.append(body.as_str());
    picture
}

} // verus!
