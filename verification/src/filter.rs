//! The extension filter: which directory entries count as images.
//!
//! A name is kept exactly when its extension, read as `std::path::Path` reads
//! one (the part after the last `.` of the name, provided that dot is not the
//! name's first character), is `png`, `jpg` or `jpeg`, case-sensitively.

use vstd::prelude::*;

verus! {

/// The name ends in `.` followed by `ext`, and that dot is not the name's
/// first character. Since the three extensions used here contain no dot, the
/// dot in question is then the last one of the name, so this coincides with
/// "the name's extension is `ext`" in the usual path sense.
pub open spec fn extension_is(name: Seq<char>, ext: Seq<char>) -> bool {
    &&& name.len() > ext.len() + 1
    &&& name[name.len() - ext.len() - 1] == '.'
    &&& name.subrange(name.len() - ext.len(), name.len() as int) == ext
}

/// The fixed filter set: `png`, `jpg` and `jpeg`, case-sensitively.
pub open spec fn is_image_name(name: Seq<char>) -> bool {
    ||| extension_is(name, seq!['p', 'n', 'g'])
    ||| extension_is(name, seq!['j', 'p', 'g'])
    ||| extension_is(name, seq!['j', 'p', 'e', 'g'])
}

/// A listing of file names, each read as its sequence of characters.
pub open spec fn names_view(names: Seq<String>) -> Seq<Seq<char>> {
    names.map_values(|name: String| name@)
}

/// The image names of a listing, in the listing's order.
pub open spec fn image_names(names: Seq<Seq<char>>) -> Seq<Seq<char>> {
    names.filter(|name: Seq<char>| is_image_name(name))
}

/// Whether `name` ends in `.` followed by `ext`, with at least one character
/// before the dot.
fn has_extension(name: &str, ext: &str) -> (r: bool)
    ensures
        r == extension_is(name@, ext@),
{
    let nl: usize = name.unicode_len();
    let el: usize = ext.unicode_len();
    if nl <= el || nl - el < 2 {
        return false;
    }
    let dot: usize = nl - el - 1;
    if name.get_char(dot) != '.' {
        return false;
    }
    let mut j: usize = 0;
    while j < el
        invariant
            0 < dot,
            dot + el + 1 == nl,
            nl == name@.len(),
            el == ext@.len(),
            j <= el,
            name@[dot as int] == '.',
            forall|k: int| 0 <= k < j ==> name@[dot + 1 + k] == ext@[k],
        decreases el - j,
    {
        if name.get_char(dot + 1 + j) != ext.get_char(j) {
            proof {
                assert(name@.subrange(nl - el, nl as int)[j as int] == name@[dot + 1 + j]);
            }
            return false;
        }
        j += 1;
    }
    proof {
        assert(name@.subrange(nl - el, nl as int) =~= ext@);
    }
    true
}

/// Whether a directory entry with this file name is treated as an image.
pub fn is_image_file_name(name: &str) -> (r: bool)
    ensures
        r == is_image_name(name@),
{
    let png = has_extension(name, "png");
    let jpg = has_extension(name, "jpg");
    let jpeg = has_extension(name, "jpeg");
    proof {
        reveal_strlit("png");
        reveal_strlit("jpg");
        reveal_strlit("jpeg");
        assert("png"@ =~= seq!['p', 'n', 'g']);
        assert("jpg"@ =~= seq!['j', 'p', 'g']);
        assert("jpeg"@ =~= seq!['j', 'p', 'e', 'g']);
    }
    png || jpg || jpeg
}

/// A listing's filtered image list is non-empty exactly when the listing
/// holds at least one name with an image extension. Since `initialize` keeps
/// exactly the filtered list and `current_path` answers exactly when that
/// list is non-empty, a freshly built carousel points at an entry exactly
/// when the listing contained at least one image name.
pub proof fn lemma_image_present(names: Seq<Seq<char>>)
    ensures
        image_names(names).len() > 0 <==> exists|i: int|
            0 <= i < names.len() && is_image_name(names[i]),
    decreases names.len(),
{
    reveal(Seq::filter);
    if names.len() > 0 {
        let rest = names.drop_last();
        lemma_image_present(rest);
        if is_image_name(names.last()) {
            assert(is_image_name(names[names.len() - 1]));
        } else {
            assert(image_names(names) == image_names(rest));
            if exists|i: int| 0 <= i < names.len() && is_image_name(names[i]) {
                let i = choose|i: int| 0 <= i < names.len() && is_image_name(names[i]);
                assert(rest[i] == names[i]);
            }
        }
    }
}

} // verus!
