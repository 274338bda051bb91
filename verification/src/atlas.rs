//! The glyph atlas cache: maps a shaped-glyph identity to a rectangle inside
//! a fixed square texture, packing new glyphs row by row (a shelf packer).
//! The cache owns only the packing state; uploading pixels into the texture
//! is the renderer's business, done once per freshly packed rectangle.

use vstd::prelude::*;

verus! {

/// The identity of a rasterized glyph: font, glyph index and pixel size.
/// Sub-pixel offset is deliberately excluded, so the same glyph at the same
/// size always hits the same cache slot.
#[derive(Clone, Copy, PartialEq, Eq, Structural, Debug)]
pub struct GlyphKey {
    pub font_id: u32,
    pub glyph_id: u16,
    pub font_size: u16,
}

/// A rectangle inside the atlas texture.
#[derive(Clone, Copy, PartialEq, Eq, Structural, Debug)]
pub struct AtlasRect {
    pub x: u32,
    pub y: u32,
    pub width: u32,
    pub height: u32,
}

/// Why a glyph could not be packed. Neither failure is fatal to the caller:
/// the glyph is simply not drawn.
#[derive(Clone, Copy, PartialEq, Eq, Structural, Debug)]
pub enum AtlasError {
    /// The rasterized image has no pixels.
    EmptyGlyph,
    /// No row can take the glyph without overflowing the texture.
    AtlasFull,
}

/// The mathematical model of a `GlyphAtlas`.
pub ghost struct AtlasView {
    pub entries: Seq<(GlyphKey, AtlasRect)>,
    pub current_x: nat,
    pub current_y: nat,
    pub row_height: nat,
    pub atlas_size: nat,
}

/// The cached rectangle of `k`, if any: first match in insertion order.
pub open spec fn lookup(entries: Seq<(GlyphKey, AtlasRect)>, k: GlyphKey) -> Option<AtlasRect>
    decreases entries.len(),
{
    if entries.len() == 0 {
        None
    } else if entries[0].0 == k {
        Some(entries[0].1)
    } else {
        lookup(entries.drop_first(), k)
    }
}

/// `lookup` misses exactly when no entry carries the key.
pub proof fn lemma_lookup_none_iff(entries: Seq<(GlyphKey, AtlasRect)>, k: GlyphKey)
    ensures
        lookup(entries, k) is None <==> (forall|j: int|
            0 <= j < entries.len() ==> (#[trigger] entries[j]).0 != k),
    decreases entries.len(),
{
    if entries.len() > 0 {
        lemma_lookup_none_iff(entries.drop_first(), k);
        assert(forall|j: int|
            1 <= j < entries.len() ==> #[trigger] entries[j] == entries.drop_first()[j - 1]);
    }
}

/// `lookup` finds the first entry carrying the key.
pub proof fn lemma_lookup_first(entries: Seq<(GlyphKey, AtlasRect)>, k: GlyphKey, i: int)
    requires
        0 <= i < entries.len(),
        entries[i].0 == k,
        forall|j: int| 0 <= j < i ==> (#[trigger] entries[j]).0 != k,
    ensures
        lookup(entries, k) == Some(entries[i].1),
    decreases i,
{
    if i > 0 {
        assert(forall|j: int|
            0 <= j < entries.len() - 1 ==> #[trigger] entries.drop_first()[j] == entries[j + 1]);
        lemma_lookup_first(entries.drop_first(), k, i - 1);
    }
}

impl AtlasView {
    /// Well-formedness: keys are unique, the packing cursor lies inside the
    /// texture, and every cached rectangle does too.
    pub open spec fn wf(self) -> bool {
        &&& self.atlas_size <= u32::MAX
        &&& self.current_x <= self.atlas_size
        &&& self.current_y + self.row_height <= self.atlas_size
        &&& forall|i: int, j: int|
            0 <= i < j < self.entries.len() ==> (#[trigger] self.entries[i]).0 != (
            #[trigger] self.entries[j]).0
        &&& forall|i: int|
            0 <= i < self.entries.len() ==> {
                let r = (#[trigger] self.entries[i]).1;
                &&& r.x + r.width <= self.atlas_size
                &&& r.y + r.height <= self.atlas_size
                &&& r.width >= 1
                &&& r.height >= 1
            }
    }

    /// One cache request: a hit returns the cached rectangle untouched; a
    /// zero-sized image is rejected; otherwise the glyph is packed into the
    /// current row, wrapping to a fresh row (at `y + row_height`) when the
    /// row cannot take its width, and failing with `AtlasFull` when the
    /// fresh row cannot take its height. A glyph wider than the texture
    /// itself can never be packed and fails the same way, so every cached
    /// rectangle lies inside the texture. As in the shelf strategy, a
    /// failed height check after a wrap leaves the wrapped cursor in place.
    pub open spec fn add_glyph(self, k: GlyphKey, w: nat, h: nat) -> (
        AtlasView,
        Result<AtlasRect, AtlasError>,
    ) {
        if lookup(self.entries, k) is Some {
            (self, Ok(lookup(self.entries, k)->Some_0))
        } else if w == 0 || h == 0 {
            (self, Err(AtlasError::EmptyGlyph))
        } else if w > self.atlas_size {
            (self, Err(AtlasError::AtlasFull))
        } else {
            let wrapped = self.current_x + w > self.atlas_size;
            let nx: nat = if wrapped {
                0
            } else {
                self.current_x
            };
            let ny: nat = if wrapped {
                self.current_y + self.row_height
            } else {
                self.current_y
            };
            let nrh: nat = if wrapped {
                0
            } else {
                self.row_height
            };
            if ny + h > self.atlas_size {
                (AtlasView { current_x: nx, current_y: ny, row_height: nrh, ..self }, Err(
                    AtlasError::AtlasFull,
                ))
            } else {
                let rect = AtlasRect {
                    x: nx as u32,
                    y: ny as u32,
                    width: w as u32,
                    height: h as u32,
                };
                (
                    AtlasView {
                        entries: self.entries.push((k, rect)),
                        current_x: nx + w,
                        current_y: ny,
                        row_height: if h > nrh {
                            h
                        } else {
                            nrh
                        },
                        ..self
                    },
                    Ok(rect),
                )
            }
        }
    }
}

/// The packing state of one atlas texture. Append-only: an entry, once
/// created, is immutable and never evicted.
pub struct GlyphAtlas {
    entries: Vec<(GlyphKey, AtlasRect)>,
    current_x: u32,
    current_y: u32,
    row_height: u32,
    atlas_size: u32,
}

impl View for GlyphAtlas {
    type V = AtlasView;

    closed spec fn view(&self) -> AtlasView {
        AtlasView {
            entries: self.entries@,
            current_x: self.current_x as nat,
            current_y: self.current_y as nat,
            row_height: self.row_height as nat,
            atlas_size: self.atlas_size as nat,
        }
    }
}

impl GlyphAtlas {
    /// An empty atlas over a `size x size` texture.
    pub fn new(size: u32) -> (a: GlyphAtlas)
        ensures
            a@.wf(),
            a@.entries == Seq::<(GlyphKey, AtlasRect)>::empty(),
            a@.current_x == 0,
            a@.current_y == 0,
            a@.row_height == 0,
            a@.atlas_size == size,
    {
        let a = GlyphAtlas {
            entries: Vec::new(),
            current_x: 0,
            current_y: 0,
            row_height: 0,
            atlas_size: size,
        };
        assert(a@.entries =~= Seq::<(GlyphKey, AtlasRect)>::empty());
        a
    }

    /// The cached rectangle of `key`, if the glyph has been packed.
    pub fn get(&self, key: GlyphKey) -> (r: Option<AtlasRect>)
        ensures
            r == lookup(self@.entries, key),
    {
        let n = self.entries.len();
        for i in 0..n
            invariant
                n == self.entries@.len(),
                forall|j: int| 0 <= j < i ==> (#[trigger] self.entries@[j]).0 != key,
        {
            if self.entries[i].0 == key {
                proof {
                    lemma_lookup_first(self.entries@, key, i as int);
                }
                return Some(self.entries[i].1);
            }
        }
        proof {
            lemma_lookup_none_iff(self.entries@, key);
        }
        None
    }

    /// One cache request, as `AtlasView::add_glyph` describes: the cached
    /// rectangle on a hit, a freshly packed one otherwise. Only a fresh
    /// rectangle needs a texture upload.
    pub fn add_glyph(&mut self, key: GlyphKey, width: u32, height: u32) -> (r: Result<
        AtlasRect,
        AtlasError,
    >)
        requires
            old(self)@.wf(),
        ensures
            final(self)@.wf(),
            ({
                let s = old(self)@.add_glyph(key, width as nat, height as nat);
                &&& final(self)@ == s.0
                &&& r == s.1
            }),
    {
        let hit = self.get(key);
        match hit {
            Some(rect) => {
                return Ok(rect);
            },
            None => {
            },
        }
        proof {
            lemma_lookup_none_iff(self.entries@, key);
        }
        if width == 0 || height == 0 {
            return Err(AtlasError::EmptyGlyph);
        }
        if width > self.atlas_size {
            return Err(AtlasError::AtlasFull);
        }
        if (self.current_x as u64) + (width as u64) > (self.atlas_size as u64) {
            self.current_x = 0;
            self.current_y = self.current_y + self.row_height;
            self.row_height = 0;
        }
        if (self.current_y as u64) + (height as u64) > (self.atlas_size as u64) {
            return Err(AtlasError::AtlasFull);
        }
        if height > self.row_height {
            self.row_height = height;
        }
        let rect = AtlasRect { x: self.current_x, y: self.current_y, width, height };
        self.entries.push((key, rect));
        self.current_x = self.current_x + width;
        Ok(rect)
    }
}

/// An alpha-only coverage bitmap expanded to four channels: coverage
/// replicated into white RGB, with the coverage itself as alpha.
pub open spec fn rgba_of(alpha: Seq<u8>) -> Seq<u8> {
    Seq::new(
        alpha.len() * 4,
        |i: int|
            if i % 4 == 3 {
                alpha[i / 4]
            } else {
                255u8
            },
    )
}

/// Expands an alpha-only coverage bitmap into the RGBA bytes the texture
/// upload takes.
pub fn expand_coverage(alpha: &[u8]) -> (r: Vec<u8>)
    requires
        alpha@.len() * 4 <= usize::MAX,
    ensures
        r@ == rgba_of(alpha@),
{
    let n = alpha.len();
    let mut out: Vec<u8> = Vec::new();
    for i in 0..n
        invariant
            n == alpha@.len(),
            n * 4 <= usize::MAX,
            out@.len() == i * 4,
            forall|k: int|
                0 <= k < i * 4 ==> #[trigger] out@[k] == (if k % 4 == 3 {
                    alpha@[k / 4]
                } else {
                    255u8
                }),
    {
        let a = alpha[i];
        out.push(255);
        out.push(255);
        out.push(255);
        out.push(a);
    }
    assert(out@ =~= rgba_of(alpha@));
    out
}

/// The cache-hit law: once a request for a key has succeeded, a second
/// request for the same key changes nothing — so no second texture upload —
/// and returns the identical rectangle, whatever image dimensions come with
/// it.
pub proof fn lemma_atlas_second_request(a: AtlasView, k: GlyphKey, w: nat, h: nat, w2: nat, h2: nat)
    requires
        a.wf(),
    ensures
        ({
            let first = a.add_glyph(k, w, h);
            first.1 matches Ok(rect) ==> first.0.add_glyph(k, w2, h2) == (first.0, Ok::<
                AtlasRect,
                AtlasError,
            >(rect))
        }),
{
    let first = a.add_glyph(k, w, h);
    if first.1 is Ok {
        if lookup(a.entries, k) is Some {
        } else {
            let rect = first.1->Ok_0;
            lemma_lookup_none_iff(a.entries, k);
            lemma_lookup_first(first.0.entries, k, a.entries.len() as int);
        }
    }
}

/// The row-wrap law: a glyph whose width does not fit the current row is
/// packed at the start of a fresh row, `row_height` below the current one.
pub proof fn lemma_atlas_row_wrap(a: AtlasView, k: GlyphKey, w: nat, h: nat)
    requires
        a.wf(),
        lookup(a.entries, k) is None,
        1 <= w <= a.atlas_size,
        1 <= h,
        a.current_x + w > a.atlas_size,
        a.current_y + a.row_height + h <= a.atlas_size,
    ensures
        a.add_glyph(k, w, h).1 == Ok::<AtlasRect, AtlasError>(
            AtlasRect {
                x: 0,
                y: (a.current_y + a.row_height) as u32,
                width: w as u32,
                height: h as u32,
            },
        ),
{
}

} // verus!
