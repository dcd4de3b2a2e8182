//! Textures: decoded images sampled by pixel, and a cache of them by path.
//!
//! Decoding is the `image` crate's work and reading files is the caller's.  A
//! [`Texture`] wraps an image that has been decoded and answers for the colour
//! at a pixel position, clamping positions beyond the last column or row.

use vstd::prelude::*;
use vstd::hash_map::StringHashMap;
use crate::color::Color;

verus! {

/// `image::DynamicImage`, a decoded image of any pixel format.  Nothing of
/// its inside is known here; what it holds is spoken of through `image_rows`
/// and `image_width`.
#[verifier::external_type_specification]
#[verifier::external_body]
pub struct ExDynamicImage(image::DynamicImage);

/// What a decoded image holds: its pixels as `get_pixel` reports them, as
/// (red, green, blue, alpha), in rows from the top.
pub uninterp spec fn image_rows(image: image::DynamicImage) -> Seq<Seq<(u8, u8, u8, u8)>>;

/// The width that a decoded image was made with; it is the length of each
/// of its rows, and is there for an image without rows too.
pub uninterp spec fn image_width(image: image::DynamicImage) -> nat;

/// `GenericImageView::dimensions` on a `DynamicImage`: the width and the
/// height.  The contract says that the image has that many rows, each of
/// that many pixels.
#[verifier::external_body]
fn image_dimensions(image: &image::DynamicImage) -> (d: (u32, u32))
    ensures
        d.0 == image_width(*image),
        d.1 == image_rows(*image).len(),
        forall|y: int| 0 <= y < d.1 ==> (#[trigger] image_rows(*image)[y]).len() == d.0,
{
    image::GenericImageView::dimensions(image)
}

/// `GenericImageView::get_pixel` on a `DynamicImage`, which panics outside
/// the image: the pixel in column `x` of row `y`, converted to 8-bit RGBA.
#[verifier::external_body]
fn image_pixel(image: &image::DynamicImage, x: u32, y: u32) -> (p: (u8, u8, u8, u8))
    requires
        y < image_rows(*image).len(),
        x < image_rows(*image)[y as int].len(),
    ensures
        p == image_rows(*image)[y as int][x as int],
{
    let image::Rgba([r, g, b, a]) = image::GenericImageView::get_pixel(image, x, y);
    (r, g, b, a)
}

/// `Clone::clone` on a `DynamicImage`: the copy has the same width and holds
/// the same pixels.
pub assume_specification[ <image::DynamicImage as Clone>::clone ](
    image: &image::DynamicImage,
) -> (copy: image::DynamicImage)
    ensures
        image_width(copy) == image_width(*image),
        image_rows(copy) == image_rows(*image),
;

/// The colour of a pixel: its alpha is dropped.
pub open spec fn pixel_color(p: (u8, u8, u8, u8)) -> Color {
    Color { r: p.0, g: p.1, b: p.2 }
}

/// The grid of colours that an image holds.
pub open spec fn image_grid(image: image::DynamicImage) -> Seq<Seq<Color>> {
    Seq::new(
        image_rows(image).len(),
        |y: int| Seq::new(image_rows(image)[y].len(), |x: int| pixel_color(image_rows(image)[y][x])),
    )
}

/// The position that is read for a requested one: itself inside the grid,
/// the last column or row beyond it.
pub open spec fn clamped(position: int, extent: int) -> int {
    if position < extent {
        position
    } else {
        extent - 1
    }
}

#[derive(Debug)]
pub struct Texture {
    image: image::DynamicImage,
    width: u32,
    height: u32,
}

impl View for Texture {
    type V = Seq<Seq<Color>>;

    /// The grid of colours, in rows from the top.
    closed spec fn view(&self) -> Seq<Seq<Color>> {
        image_grid(self.image)
    }
}

impl Clone for Texture {
    fn clone(&self) -> (copy: Texture)
        ensures
            copy@ == self@,
            copy.columns() == self.columns(),
            copy.rows() == self.rows(),
    {
        proof {
            use_type_invariant(self);
        }
        Texture { image: self.image.clone(), width: self.width, height: self.height }
    }
}

impl Texture {
    #[verifier::type_invariant]
    spec fn inv(self) -> bool {
        &&& image_width(self.image) == self.width
        &&& image_rows(self.image).len() == self.height
        &&& forall|y: int|
            0 <= y < self.height ==> (#[trigger] image_rows(self.image)[y]).len() == self.width
    }

    pub closed spec fn columns(&self) -> nat {
        self.width as nat
    }

    pub closed spec fn rows(&self) -> nat {
        self.height as nat
    }

    /// The grid has `rows()` rows of `columns()` colours each.
    pub open spec fn is_grid(&self) -> bool {
        &&& self@.len() == self.rows()
        &&& forall|y: int| 0 <= y < self.rows() ==> (#[trigger] self@[y]).len() == self.columns()
    }

    /// Wraps a decoded image.
    pub fn new(image: image::DynamicImage) -> (t: Texture)
        ensures
            t@ == image_grid(image),
            t.columns() == image_width(image),
            t.rows() == image_rows(image).len(),
            t.is_grid(),
    {
        let (width, height) = image_dimensions(&image);
        Texture { image, width, height }
    }

    pub fn width(&self) -> (w: u32)
        ensures
            w == self.columns(),
            self.is_grid(),
    {
        proof {
            use_type_invariant(self);
        }
        self.width
    }

    pub fn height(&self) -> (h: u32)
        ensures
            h == self.rows(),
            self.is_grid(),
    {
        proof {
            use_type_invariant(self);
        }
        self.height
    }

    /// The colour at a pixel position.  A position beyond the last column or
    /// row is read as the last.  The texture must not be empty.
    pub fn get_color(&self, x: u32, y: u32) -> (c: Color)
        requires
            self.columns() > 0,
            self.rows() > 0,
        ensures
            self.is_grid(),
            c == self@[clamped(y as int, self.rows() as int)][clamped(
                x as int,
                self.columns() as int,
            )],
    {
        proof {
            use_type_invariant(self);
        }
        let column: u32 = if x < self.width {
            x
        } else {
            self.width - 1
        };
        let row: u32 = if y < self.height {
            y
        } else {
            self.height - 1
        };
        let (r, g, b, _a) = image_pixel(&self.image, column, row);
        Color::new(r, g, b)
    }

    /// The colour at a pixel position, clamped as `get_color` does; `None`
    /// exactly when the texture has no pixels.
    pub fn sample(&self, x: u32, y: u32) -> (c: Option<Color>)
        ensures
            self.is_grid(),
            c is Some <==> self.columns() > 0 && self.rows() > 0,
            c matches Some(color) ==> color == self@[clamped(y as int, self.rows() as int)][clamped(
                x as int,
                self.columns() as int,
            )],
    {
        proof {
            use_type_invariant(self);
        }
        if self.width == 0 || self.height == 0 {
            None
        } else {
            Some(self.get_color(x, y))
        }
    }
}


/// Textures by the path they were loaded from.
pub struct TextureCache {
    textures: StringHashMap<Texture>,
}

impl View for TextureCache {
    type V = Map<Seq<char>, Texture>;

    closed spec fn view(&self) -> Map<Seq<char>, Texture> {
        self.textures@
    }
}

impl TextureCache {
    pub fn new() -> (cache: TextureCache)
        ensures
            cache@ == Map::<Seq<char>, Texture>::empty(),
    {
        TextureCache { textures: StringHashMap::new() }
    }

    /// The texture that is cached under a path, if any.
    pub fn get(&self, file_path: &str) -> (r: Option<&Texture>)
        ensures
            r is Some <==> self@.contains_key(file_path@),
            r matches Some(texture) ==> *texture == self@[file_path@],
    {
        self.textures.get(file_path)
    }

    /// The texture for a path: the cached one if there is one, else the one
    /// that `load` makes of the path, which is then cached.
    ///
    /// With the path cached, `load` is not called and the cache stays as it
    /// is.  With the path not cached, `load` is called once with the path; the
    /// texture it returns enters the cache under the path and is returned; the
    /// error it returns is returned and the cache stays as it is.
    pub fn get_or_load<E, F: FnOnce(&str) -> Result<Texture, E>>(
        &mut self,
        file_path: &str,
        load: F,
    ) -> (r: Result<&Texture, E>)
        requires
            call_requires(load, (file_path,)),
        ensures
            old(self)@.contains_key(file_path@) ==> final(self)@ == old(self)@ && r == Ok::<
                &Texture,
                E,
            >(&old(self)@[file_path@]),
            !old(self)@.contains_key(file_path@) ==> exists|loaded: Result<Texture, E>|
                {
                    &&& #[trigger] call_ensures(load, (file_path,), loaded)
                    &&& match loaded {
                        Ok(texture) => final(self)@ == old(self)@.insert(file_path@, texture) && r
                            == Ok::<&Texture, E>(&texture),
                        Err(error) => final(self)@ == old(self)@ && r == Err::<&Texture, E>(error),
                    }
                },
    {
        if !self.textures.contains_key(file_path) {
            match load(file_path) {
                Ok(texture) => {
                    self.textures.insert(file_path.to_owned(), texture);
                },
                Err(error) => {
                    return Err(error);
                },
            }
        }
        match self.textures.get(file_path) {
            Some(texture) => Ok(texture),
            None => vstd::pervasive::unreached(),
        }
    }
}

} // verus!
