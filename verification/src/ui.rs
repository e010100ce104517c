//! Screen geometry: points, the bounding box of a match, and the named
//! rectangles in which landmarks are searched.

use crate::assets::{apply_threshold, binarized, preprocessed};
use crate::bitmap::{GrayBitmap, RgbBitmap};
use vstd::prelude::*;

verus! {

/// An absolute screen coordinate.
#[derive(Debug, Clone, Copy, PartialEq, Eq, Structural)]
pub struct UIPoint {
    pub x: u32,
    pub y: u32,
}

impl UIPoint {
    pub fn new(x: u32, y: u32) -> (p: Self)
        ensures
            p.x == x,
            p.y == y,
    {
        Self { x, y }
    }
}

/// The absolute bounding box of a successful match.
#[derive(Debug, Clone, Copy, PartialEq, Eq, Structural)]
pub struct UISurface {
    pub top_left: UIPoint,
    pub bottom_right: UIPoint,
}

impl UISurface {
    /// The corners are in order on both axes.
    pub open spec fn wf(&self) -> bool {
        &&& self.top_left.x <= self.bottom_right.x
        &&& self.top_left.y <= self.bottom_right.y
    }

    /// `p` lies in the box, both bounds included on each axis.
    pub open spec fn contains(&self, p: UIPoint) -> bool {
        &&& self.top_left.x <= p.x <= self.bottom_right.x
        &&& self.top_left.y <= p.y <= self.bottom_right.y
    }

    /// The box with the given corners, taken as they are.
    pub fn new(top_left: UIPoint, bottom_right: UIPoint) -> (s: Self)
        ensures
            s.top_left == top_left,
            s.bottom_right == bottom_right,
    {
        Self { top_left, bottom_right }
    }

    /// A point of the box chosen at random, each axis on its own and both
    /// bounds included.
    pub fn random_point(&self) -> (p: UIPoint)
        requires
            self.wf(),
        ensures
            self.contains(p),
    {
        let x = random_range(self.top_left.x, self.bottom_right.x);
        let y = random_range(self.top_left.y, self.bottom_right.y);
        UIPoint::new(x, y)
    }

    /// A box whose corners coincide holds that one point only.
    pub proof fn lemma_single_point(&self, p: UIPoint)
        requires
            self.top_left == self.bottom_right,
            self.contains(p),
        ensures
            p == self.top_left,
    {
    }
}

/// Calls `rand::random_range` on the inclusive range from `low` to `high`.
/// Trusted: the result lies in the range. The range must not be empty, or
/// the function panics.
#[verifier::external_body]
fn random_range(low: u32, high: u32) -> (r: u32)
    requires
        low <= high,
    ensures
        low <= r <= high,
{
    rand::random_range(low..=high)
}

/// Why a mask cannot be made or applied.
#[derive(Debug, Clone, Copy, PartialEq, Eq, Structural)]
pub enum MaskError {
    /// The mask would have no width or no height.
    Empty,
    /// The mask reaches beyond the bitmap it is applied to.
    OutOfRange,
}

impl MaskError {
    /// What went wrong, in words.
    pub fn message(&self) -> (m: &'static str)
        ensures
            m@ == match self {
                MaskError::Empty => "mask is empty"@,
                MaskError::OutOfRange => "mask out of range"@,
            },
    {
        match self {
            MaskError::Empty => "mask is empty",
            MaskError::OutOfRange => "mask out of range",
        }
    }
}

/// The regions of the screen that are known by name.
#[derive(Debug, Clone, Copy, PartialEq, Eq, Structural)]
pub enum MaskName {
    GemColumn,
    GemCurrency,
    WaveCount,
    BattleEndScreen,
}

impl MaskName {
    /// The rectangle registered under the name: x, y, width, height.
    pub open spec fn rectangle(&self) -> (u32, u32, u32, u32) {
        match self {
            MaskName::GemColumn => (0, 0, 90, 695),
            MaskName::GemCurrency => (25, 52, 50, 25),
            MaskName::WaveCount => (205, 433, 50, 17),
            MaskName::BattleEndScreen => (16, 150, 287, 400),
        }
    }

    /// The name as it is written out.
    pub open spec fn spec_label(&self) -> Seq<char> {
        match self {
            MaskName::GemColumn => "GEM_COLUMN"@,
            MaskName::GemCurrency => "GEM_CURRENCY"@,
            MaskName::WaveCount => "WAVE_COUNT"@,
            MaskName::BattleEndScreen => "BATTLE_END_SCREEN"@,
        }
    }

    /// The name as it is written out.
    pub fn label(&self) -> (l: &'static str)
        ensures
            l@ == self.spec_label(),
    {
        match self {
            MaskName::GemColumn => "GEM_COLUMN",
            MaskName::GemCurrency => "GEM_CURRENCY",
            MaskName::WaveCount => "WAVE_COUNT",
            MaskName::BattleEndScreen => "BATTLE_END_SCREEN",
        }
    }
}

/// A rectangle in absolute screen coordinates, with a name if it is one of
/// the registered regions. It is never empty.
#[derive(Debug, Clone, Copy, PartialEq, Eq)]
pub struct UIMask {
    name: Option<MaskName>,
    x: u32,
    y: u32,
    width: u32,
    height: u32,
}

impl UIMask {
    pub closed spec fn spec_name(&self) -> Option<MaskName> {
        self.name
    }

    pub closed spec fn spec_x(&self) -> u32 {
        self.x
    }

    pub closed spec fn spec_y(&self) -> u32 {
        self.y
    }

    pub closed spec fn spec_width(&self) -> u32 {
        self.width
    }

    pub closed spec fn spec_height(&self) -> u32 {
        self.height
    }

    /// The mask has a width and a height.
    pub open spec fn wf(&self) -> bool {
        self.width() > 0 && self.height() > 0
    }

    /// The mask lies within a `width` by `height` bitmap.
    pub open spec fn fits(&self, width: u32, height: u32) -> bool {
        self.x() + self.width() <= width && self.y() + self.height() <= height
    }

    /// The absolute position of the mask-local position `(x, y)`.
    pub open spec fn spec_to_point(&self, x: u32, y: u32) -> UIPoint {
        UIPoint { x: (self.x() + x) as u32, y: (self.y() + y) as u32 }
    }

    /// What [`UIMask::label`] writes.
    pub open spec fn spec_label(&self) -> Seq<char> {
        match self.name() {
            Some(name) => name.spec_label(),
            None => ""@,
        }
    }

    /// An unnamed mask over the given rectangle, which must have a width and
    /// a height.
    pub fn new(x: u32, y: u32, width: u32, height: u32) -> (r: Result<Self, MaskError>)
        ensures
            match r {
                Ok(m) => {
                    &&& m.wf()
                    &&& m.name() is None
                    &&& m.x() == x
                    &&& m.y() == y
                    &&& m.width() == width
                    &&& m.height() == height
                },
                Err(e) => e == MaskError::Empty && (width == 0 || height == 0),
            },
    {
        if width == 0 || height == 0 {
            Err(MaskError::Empty)
        } else {
            Ok(Self { name: None, x, y, width, height })
        }
    }

    /// The registered mask of that name.
    pub fn named(name: MaskName) -> (m: Self)
        ensures
            m.wf(),
            m.name() == Some(name),
            (m.x(), m.y(), m.width(), m.height()) == name.rectangle(),
    {
        match name {
            MaskName::GemColumn => Self { name: Some(name), x: 0, y: 0, width: 90, height: 695 },
            MaskName::GemCurrency => Self { name: Some(name), x: 25, y: 52, width: 50, height: 25 },
            MaskName::WaveCount => Self { name: Some(name), x: 205, y: 433, width: 50, height: 17 },
            MaskName::BattleEndScreen => Self {
                name: Some(name),
                x: 16,
                y: 150,
                width: 287,
                height: 400,
            },
        }
    }

    #[verifier::when_used_as_spec(spec_name)]
    pub fn name(&self) -> (n: Option<MaskName>)
        ensures
            n == self.name(),
    {
        self.name
    }

    #[verifier::when_used_as_spec(spec_x)]
    pub fn x(&self) -> (v: u32)
        ensures
            v == self.x(),
    {
        self.x
    }

    #[verifier::when_used_as_spec(spec_y)]
    pub fn y(&self) -> (v: u32)
        ensures
            v == self.y(),
    {
        self.y
    }

    #[verifier::when_used_as_spec(spec_width)]
    pub fn width(&self) -> (v: u32)
        ensures
            v == self.width(),
    {
        self.width
    }

    #[verifier::when_used_as_spec(spec_height)]
    pub fn height(&self) -> (v: u32)
        ensures
            v == self.height(),
    {
        self.height
    }

    /// The mask's name as it is written out; nothing for an unnamed mask.
    pub fn label(&self) -> (l: &'static str)
        ensures
            l@ == self.spec_label(),
    {
        match self.name {
            Some(name) => name.label(),
            None => "",
        }
    }

    /// Cuts the mask's rectangle out of `img`. Fails, without clamping, if
    /// the rectangle reaches beyond the bitmap.
    pub fn crop(&self, img: &RgbBitmap) -> (r: Result<RgbBitmap, MaskError>)
        requires
            self.wf(),
            img.wf(),
        ensures
            match r {
                Ok(cut) => {
                    &&& self.fits(img.width(), img.height())
                    &&& cut.wf()
                    &&& cut.width() == self.width()
                    &&& cut.height() == self.height()
                    &&& cut@ == img.sub_image_data(self.x(), self.y(), self.width(), self.height())
                },
                Err(e) => e == MaskError::OutOfRange && !self.fits(img.width(), img.height()),
            },
    {
        let fits_across = self.x as u64 + self.width as u64 <= img.width() as u64;
        let fits_down = self.y as u64 + self.height as u64 <= img.height() as u64;
        if fits_across && fits_down {
            Ok(img.sub_image(self.x, self.y, self.width, self.height))
        } else {
            Err(MaskError::OutOfRange)
        }
    }

    /// Cuts the mask's rectangle out of `img` and preprocesses it for
    /// matching. Fails where [`UIMask::crop`] fails.
    pub fn apply(&self, img: &RgbBitmap) -> (r: Result<GrayBitmap, MaskError>)
        requires
            self.wf(),
            img.wf(),
        ensures
            match r {
                Ok(gray) => {
                    &&& self.fits(img.width(), img.height())
                    &&& gray.wf()
                    &&& gray.width() == self.width()
                    &&& gray.height() == self.height()
                    &&& gray@ == self.applied(img)
                    &&& binarized(gray@)
                },
                Err(e) => e == MaskError::OutOfRange && !self.fits(img.width(), img.height()),
            },
    {
        match self.crop(img) {
            Ok(cut) => Ok(apply_threshold(&cut)),
            Err(e) => Err(e),
        }
    }

    /// The samples that [`UIMask::apply`] gives for `img` where the mask fits.
    pub open spec fn applied(&self, img: &RgbBitmap) -> Seq<u8> {
        preprocessed(
            img.sub_image_data(self.x(), self.y(), self.width(), self.height()),
            self.width(),
            self.height(),
        )
    }

    /// The absolute position of the mask-local position `(x, y)`.
    #[verifier::when_used_as_spec(spec_to_point)]
    pub fn to_point(&self, x: u32, y: u32) -> (p: UIPoint)
        requires
            self.x() + x <= u32::MAX,
            self.y() + y <= u32::MAX,
        ensures
            p.x == self.x() + x,
            p.y == self.y() + y,
            p == self.to_point(x, y),
    {
        UIPoint { x: self.x + x, y: self.y + y }
    }

    /// A pixel of what the mask cuts out of a screen is the screen's pixel at
    /// the position that [`UIMask::to_point`] gives for it.
    pub proof fn lemma_crop_maps_back(&self, screen: &RgbBitmap, x: u32, y: u32, c: int)
        requires
            self.wf(),
            screen.wf(),
            self.fits(screen.width(), screen.height()),
            x < self.width(),
            y < self.height(),
            0 <= c < 3,
        ensures
            self.to_point(x, y).x == self.x() + x,
            self.to_point(x, y).y == self.y() + y,
            self.to_point(x, y).x < screen.width(),
            self.to_point(x, y).y < screen.height(),
            0 <= (y * self.width() + x) * 3 + c < 3 * (self.width() * self.height()),
            screen.sub_image_data(self.x(), self.y(), self.width(), self.height())[(y
                * self.width() + x) * 3 + c] == screen.channel(
                self.to_point(x, y).x as int,
                self.to_point(x, y).y as int,
                c,
            ),
    {
        screen.lemma_sub_image_pixel(
            self.x(),
            self.y(),
            self.width(),
            self.height(),
            x as int,
            y as int,
            c,
        );
    }
}

} // verus!
