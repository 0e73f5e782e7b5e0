//! The carousel: an ordered list of image file names and a cursor into it,
//! together with the handle of the image currently decoded, if any.
//!
//! The carousel never does I/O itself. It is built from a directory listing
//! handed in as plain file names, and it stores whatever handle the caller
//! decoded for the entry under the cursor. Moving the cursor drops the stored
//! handle, so the caller decodes the new entry and stores the outcome; when
//! decoding fails the caller stores nothing, and the carousel then shows no
//! image rather than a stale one.

use vstd::prelude::*;

use crate::filter::{image_names, is_image_file_name, is_image_name, names_view};

verus! {

/// Where the cursor stands after one step forward in a list of length `len`:
/// one further, unless the next position would fall off the end.
pub open spec fn advanced_index(i: int, len: int) -> int {
    if i + 1 < len {
        i + 1
    } else {
        i
    }
}

/// Where the cursor stands after one step back: one less, unless it already
/// stands at the first position.
pub open spec fn retreated_index(i: int) -> int {
    if i > 0 {
        i - 1
    } else {
        i
    }
}

/// Stepping forward from a position whose successor is valid and then
/// stepping back returns the cursor to where it started.
pub proof fn lemma_advance_then_retreat(i: int, len: int)
    requires
        0 <= i,
        i + 1 < len,
    ensures
        retreated_index(advanced_index(i, len)) == i,
{
}

/// At the first position a step back changes nothing; at the last position a
/// step forward changes nothing.
pub proof fn lemma_boundary_steps(i: int, len: int)
    requires
        0 <= i < len,
    ensures
        i == 0 ==> retreated_index(i) == i,
        i == len - 1 ==> advanced_index(i, len) == i,
{
}

/// An ordered list of image file names, a cursor into it, and the handle of
/// the image decoded for the entry under the cursor, if any. `T` is whatever
/// the caller's renderer uses as an image handle.
pub struct Carousel<T> {
    images: Vec<String>,
    current_index: usize,
    current_image: Option<T>,
}

impl<T> Carousel<T> {
    /// The file names held, as sequences of characters, in order.
    pub closed spec fn paths(self) -> Seq<Seq<char>> {
        names_view(self.images@)
    }

    /// The cursor.
    pub closed spec fn index(self) -> int {
        self.current_index as int
    }

    /// The handle stored for the entry under the cursor, if any.
    pub closed spec fn image(self) -> Option<T> {
        self.current_image
    }

    /// The cursor is a valid position whenever the list is non-empty; an
    /// empty carousel holds no image and keeps its cursor at the start.
    pub open spec fn wf(self) -> bool {
        &&& self.paths().len() > 0 ==> self.index() < self.paths().len()
        &&& self.paths().len() == 0 ==> self.index() == 0 && self.image() is None
    }

    /// Builds a carousel from a directory listing: keeps the names with an
    /// image extension, in the listing's order, and puts the cursor on the
    /// first of them. No image handle is stored yet; the caller decodes the
    /// entry under the cursor, if there is one, and stores the outcome.
    pub fn initialize(names: Vec<String>) -> (c: Self)
        ensures
            c.wf(),
            c.paths() == image_names(names_view(names@)),
            c.index() == 0,
            c.image() is None,
    {
        let ghost full = names_view(names@);
        let mut images: Vec<String> = Vec::new();
        let mut i: usize = 0;
        while i < names.len()
            invariant
                i <= names.len(),
                full == names_view(names@),
                names_view(images@) == image_names(full.take(i as int)),
            decreases names.len() - i,
        {
            let keep = is_image_file_name(names[i].as_str());
            proof {
                broadcast use vstd::prelude::Seq::filter_distributes_over_add;

                assert(full.take(i + 1) =~= full.take(i as int) + seq![full[i as int]]);
                lemma_image_names_singleton(full[i as int]);
                assert(image_names(full.take(i + 1)) == image_names(full.take(i as int))
                    + image_names(seq![full[i as int]]));
            }
            if keep {
                let ghost before = images@;
                images.push(names[i].clone());
                proof {
                    assert(names_view(images@) =~= names_view(before).push(names@[i as int]@));
                    assert(names_view(before).push(full[i as int]) =~= image_names(
                        full.take(i as int),
                    ) + seq![full[i as int]]);
                }
            } else {
                proof {
                    assert(image_names(full.take(i + 1)) =~= image_names(full.take(i as int)));
                }
            }
            i += 1;
        }
        proof {
            assert(full.take(names@.len() as int) =~= full);
        }
        Self { images, current_index: 0, current_image: None }
    }

    /// How many entries passed the filter.
    pub fn len(&self) -> (n: usize)
        ensures
            n == self.paths().len(),
    {
        self.images.len()
    }

    /// The file name under the cursor: present exactly when the list is
    /// non-empty.
    pub fn current_path(&self) -> (r: Option<&String>)
        requires
            self.wf(),
        ensures
            match r {
                Some(p) => self.paths().len() > 0 && p@ == self.paths()[self.index()],
                None => self.paths().len() == 0,
            },
    {
        if self.images.len() > 0 {
            Some(&self.images[self.current_index])
        } else {
            None
        }
    }

    /// The handle of the image currently shown, if one is stored.
    pub fn current(&self) -> (r: Option<&T>)
        ensures
            match r {
                Some(t) => self.image() == Some(*t),
                None => self.image() is None,
            },
    {
        self.current_image.as_ref()
    }

    /// Stores the outcome of decoding the entry under the cursor: the handle
    /// on success, nothing on failure. An empty carousel stores nothing.
    pub fn set_image(&mut self, image: Option<T>)
        requires
            old(self).wf(),
            old(self).paths().len() > 0 || image is None,
        ensures
            final(self).wf(),
            final(self).paths() == old(self).paths(),
            final(self).index() == old(self).index(),
            final(self).image() == image,
    {
        self.current_image = image;
    }

    /// Moves the cursor one entry forward, dropping the stored handle so the
    /// caller re-decodes; at the last entry (and on an empty list) it does
    /// nothing at all. Returns whether the cursor moved.
    pub fn advance(&mut self) -> (moved: bool)
        requires
            old(self).wf(),
        ensures
            final(self).wf(),
            final(self).paths() == old(self).paths(),
            final(self).index() == advanced_index(
                old(self).index(),
                old(self).paths().len() as int,
            ),
            moved == (old(self).index() + 1 < old(self).paths().len()),
            moved ==> final(self).image() is None,
            !moved ==> *final(self) == *old(self),
    {
        let n: usize = self.images.len();
        if self.current_index + 1 < n {
            self.current_index += 1;
            self.current_image = None;
            true
        } else {
            false
        }
    }

    /// Moves the cursor one entry back, dropping the stored handle so the
    /// caller re-decodes; at the first entry it does nothing at all. Returns
    /// whether the cursor moved.
    pub fn retreat(&mut self) -> (moved: bool)
        requires
            old(self).wf(),
        ensures
            final(self).wf(),
            final(self).paths() == old(self).paths(),
            final(self).index() == retreated_index(old(self).index()),
            moved == (old(self).index() > 0),
            moved ==> final(self).image() is None,
            !moved ==> *final(self) == *old(self),
    {
        if self.current_index > 0 {
            self.current_index -= 1;
            self.current_image = None;
            true
        } else {
            false
        }
    }
}

/// A one-name listing filters to itself when the name has an image
/// extension, and to the empty list when it does not.
proof fn lemma_image_names_singleton(name: Seq<char>)
    ensures
        image_names(seq![name]) == if is_image_name(name) {
            seq![name]
        } else {
            Seq::<Seq<char>>::empty()
        },
{
    reveal_with_fuel(Seq::filter, 2);
    assert(seq![name].drop_last() =~= Seq::<Seq<char>>::empty());
    if is_image_name(name) {
        assert(image_names(seq![name]) =~= seq![name]);
    } else {
        assert(image_names(seq![name]) =~= Seq::<Seq<char>>::empty());
    }
}

} // verus!
