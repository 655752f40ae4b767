//! The icons that a manifest announces, and the addresses of the assets.

use crate::manifest::{Shelf, ShelfView};
use vstd::arithmetic::div_mod::lemma_fundamental_div_mod_converse;
use vstd::prelude::*;
use vstd::string::StringExecFns;

verus! {

/// One icon: the name of its file and the image itself. The image is empty
/// until it has been fetched.
#[derive(Debug, PartialEq, Eq)]
pub struct Icon {
    pub name: String,
    pub data: Vec<u8>,
}

/// An icon as a mathematical value.
pub struct IconView {
    pub name: Seq<char>,
    pub data: Seq<u8>,
}

impl View for Icon {
    type V = IconView;

    open spec fn view(&self) -> IconView {
        IconView { name: self.name@, data: self.data@ }
    }
}

/// The icons of a list as mathematical values, in order.
pub open spec fn icon_views(icons: Seq<Icon>) -> Seq<IconView> {
    Seq::new(icons.len(), |i: int| icons[i]@)
}

/// The file name of the icon with the given base name and variant.
pub open spec fn icon_file_name(basename: Seq<char>, variant: Seq<char>, extension: Seq<char>) -> Seq<
    char,
> {
    basename + variant + seq!['.'] + extension
}

/// The icon at position `k` of the list that a manifest announces: base
/// names change slowest, variants fastest.
pub open spec fn announced_icon(shelf: ShelfView, k: int) -> IconView {
    let variants = shelf.icons_variants.len() as int;
    IconView {
        name: icon_file_name(
            shelf.icons_name[k / variants],
            shelf.icons_variants[k % variants],
            shelf.icons_extension,
        ),
        data: Seq::empty(),
    }
}

/// The icons that a manifest announces: one for each pair of a base name and
/// a variant, none of them fetched yet.
pub open spec fn announced_icons(shelf: ShelfView) -> Seq<IconView> {
    Seq::new(
        shelf.icons_name.len() * shelf.icons_variants.len(),
        |k: int| announced_icon(shelf, k),
    )
}

/// The list of announced icons has one entry for each pair of a base name
/// and a variant; the entry of base name `i` and variant `j` stands at
/// position `i * variants + j`, carries the file name composed of the two
/// and of the extension, and holds no image.
pub proof fn announced_icons_are_the_pairs(shelf: ShelfView, i: int, j: int)
    requires
        0 <= i < shelf.icons_name.len(),
        0 <= j < shelf.icons_variants.len(),
    ensures
        announced_icons(shelf).len() == shelf.icons_name.len() * shelf.icons_variants.len(),
        0 <= i * shelf.icons_variants.len() + j < announced_icons(shelf).len(),
        announced_icons(shelf)[i * shelf.icons_variants.len() + j] == (IconView {
            name: icon_file_name(
                shelf.icons_name[i],
                shelf.icons_variants[j],
                shelf.icons_extension,
            ),
            data: Seq::empty(),
        }),
{
    let names = shelf.icons_name.len() as int;
    let variants = shelf.icons_variants.len() as int;
    let k = i * variants + j;
    pair_position(names, variants, i, j);
    lemma_fundamental_div_mod_converse(k, variants, i, j);
}

/// Position `i * variants + j` lies within `names * variants` positions.
proof fn pair_position(names: int, variants: int, i: int, j: int)
    requires
        0 <= i < names,
        0 <= j < variants,
    ensures
        0 <= i * variants + j < names * variants,
{
    assert(i * variants >= 0) by (nonlinear_arith)
        requires
            i >= 0,
            variants > 0,
    ;
    assert((i + 1) * variants <= names * variants) by (nonlinear_arith)
        requires
            i + 1 <= names,
            variants > 0,
    ;
    assert((i + 1) * variants == i * variants + variants) by (nonlinear_arith);
}

/// The file name of one icon.
fn compose_icon_name(basename: &String, variant: &String, extension: &String) -> (name: String)
    ensures
        name@ == icon_file_name(basename@, variant@, extension@),
{
    let mut name = basename.clone();
    name.append(variant.as_str());
    name.append(".");
    name.append(extension.as_str());
    proof {
        reveal_strlit(".");
        assert("."@ =~= seq!['.']);
    }
    name
}

/// Expands a manifest into the icons that it announces: for each base name,
/// in the manifest's order, one icon for each variant, in the manifest's
/// order. No icon holds an image yet.
pub fn construct_icons_url(shelf: &Shelf) -> (icons: Vec<Icon>)
    ensures
        icon_views(icons@) == announced_icons(shelf@),
{
    let mut icons: Vec<Icon> = Vec::new();
    let names = shelf.icons_name.len();
    let variants = shelf.icons_variants.len();
    let mut i: usize = 0;
    while i < names
        invariant
            names == shelf.icons_name.len(),
            variants == shelf.icons_variants.len(),
            0 <= i <= names,
            icons.len() == i * variants,
            forall|k: int| 0 <= k < icons.len() ==> (#[trigger] icons[k])@ == announced_icon(shelf@, k),
        decreases names - i,
    {
        let mut j: usize = 0;
        while j < variants
            invariant
                names == shelf.icons_name.len(),
                variants == shelf.icons_variants.len(),
                0 <= i < names,
                0 <= j <= variants,
                icons.len() == i * variants + j,
                forall|k: int|
                    0 <= k < icons.len() ==> (#[trigger] icons[k])@ == announced_icon(shelf@, k),
            decreases variants - j,
        {
            let name = compose_icon_name(
                &shelf.icons_name[i],
                &shelf.icons_variants[j],
                &shelf.icons_extension,
            );
            proof {
                let k = i * variants + j;
                lemma_fundamental_div_mod_converse(k, variants as int, i as int, j as int);
            }
            icons.push(Icon { name, data: Vec::new() });
            j = j + 1;
        }
        proof {
            assert((i + 1) * variants == i * variants + variants) by (nonlinear_arith);
        }
        i = i + 1;
    }
    proof {
        assert(icons.len() == shelf@.icons_name.len() * shelf@.icons_variants.len());
        assert(icon_views(icons@) =~= announced_icons(shelf@));
    }
    icons
}

/// An icon after the attempt to fetch its image: it holds the image that
/// arrived, unless none arrived or the one that arrived is empty.
pub open spec fn received(icon: IconView, outcome: Option<Seq<u8>>) -> IconView {
    match outcome {
        Some(image) => if image.len() > 0 {
            IconView { name: icon.name, data: image }
        } else {
            icon
        },
        None => icon,
    }
}

/// Whether an attempt to fetch an image brought one.
pub open spec fn arrived(outcome: Option<Seq<u8>>) -> bool {
    outcome matches Some(image) && image.len() > 0
}

/// The images of optional byte strings as mathematical values.
pub open spec fn image_view(outcome: Option<Vec<u8>>) -> Option<Seq<u8>> {
    match outcome {
        Some(image) => Some(image@),
        None => None,
    }
}

/// Takes in what the attempt to fetch an icon's image brought. A failed
/// fetch and an empty image leave the icon as it was. Tells whether the
/// icon took the image.
pub fn store_payload(icon: &mut Icon, outcome: Option<Vec<u8>>) -> (stored: bool)
    ensures
        final(icon)@ == received(old(icon)@, image_view(outcome)),
        stored == arrived(image_view(outcome)),
{
    match outcome {
        Some(image) => {
            if image.len() > 0 {
                icon.data = image;
                true
            } else {
                false
            }
        },
        None => false,
    }
}

/// The address of the shelf script: the manifest's shelf address followed by
/// the shelf's file name.
pub open spec fn shelf_address(shelf: ShelfView) -> Seq<char> {
    shelf.shelf_url + shelf.shelf_name
}

/// The address of an icon's image: the manifest's icon address followed by
/// the icon's file name.
pub open spec fn icon_address(shelf: ShelfView, icon: IconView) -> Seq<char> {
    shelf.icons_url + icon.name
}

/// The address from which the shelf script is fetched.
pub fn shelf_file_url(shelf: &Shelf) -> (url: String)
    ensures
        url@ == shelf_address(shelf@),
{
    let mut url = shelf.shelf_url.clone();
    url.append(shelf.shelf_name.as_str());
    url
}

/// The address from which an icon's image is fetched.
pub fn icon_url(shelf: &Shelf, icon: &Icon) -> (url: String)
    ensures
        url@ == icon_address(shelf@, icon@),
{
    let mut url = shelf.icons_url.clone();
    url.append(icon.name.as_str());
    url
}

} // verus!
