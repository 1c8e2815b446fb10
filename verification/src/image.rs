//! The pictures of a recommendation: what they show and in which order
//! they are displayed.

use std::cmp::Ordering;
use vstd::prelude::*;
use vstd::seq_lib::{lemma_multiset_commutative, to_multiset_build};
use vstd::string::StringExecFns;
use crate::text::{
    chars_contain, chars_of, contains, decimal_text, parse_u8, parsed_u8, text_of, u8_to_string,
};

verus! {

/// A width or a height as a terminal takes it: a number of pixels, or left
/// to the terminal.
#[derive(Debug, Clone, Copy, PartialEq, Eq, Hash, Structural)]
pub enum TermDimension {
    Auto,
    Dimension(u8),
}

/// The part of the body that a picture dresses, from the top down.
#[derive(Debug, Clone, Copy, PartialEq, Eq, PartialOrd, Ord, Hash, Structural)]
pub enum BodyPart {
    Head,
    Torso,
    Legs,
    Feet,
}

/// The text that stands for a dimension: `auto`, or the pixels in base ten.
pub open spec fn dimension_text(d: TermDimension) -> Seq<char> {
    match d {
        TermDimension::Auto => "auto"@,
        TermDimension::Dimension(pixels) => decimal_text(pixels as nat),
    }
}

/// The dimension that an attribute gives: its pixels where it writes a
/// number from 0 to 255, otherwise, and where it is absent, `Auto`.
pub open spec fn dimension_of(attr: Option<Seq<char>>) -> TermDimension {
    match attr {
        Some(text) => match parsed_u8(text) {
            Some(pixels) => TermDimension::Dimension(pixels),
            None => TermDimension::Auto,
        },
        None => TermDimension::Auto,
    }
}

impl TermDimension {
    /// Writes the dimension as the terminal reads it.
    pub fn to_string(&self) -> (text: String)
        ensures
            text@ == dimension_text(*self),
    {
        match self {
            TermDimension::Auto => String::from_str("auto"),
            TermDimension::Dimension(pixels) => u8_to_string(*pixels),
        }
    }

    /// Reads the dimension that an attribute of a picture gives.
    pub fn from_attr(attr: &Option<String>) -> (d: TermDimension)
        ensures
            d == dimension_of(text_of(*attr)),
    {
        match attr {
            Some(text) => {
                let chars = chars_of(text.as_str());
                match parse_u8(&chars) {
                    Some(pixels) => TermDimension::Dimension(pixels),
                    None => TermDimension::Auto,
                }
            },
            None => TermDimension::Auto,
        }
    }
}

/// The part of the body that an address names: the first of `head`,
/// `torso`, `legs` and `feet`, in this order, that stands in it.
pub open spec fn classify(url: Seq<char>) -> Option<BodyPart> {
    if contains(url, "head"@) {
        Some(BodyPart::Head)
    } else if contains(url, "torso"@) {
        Some(BodyPart::Torso)
    } else if contains(url, "legs"@) {
        Some(BodyPart::Legs)
    } else if contains(url, "feet"@) {
        Some(BodyPart::Feet)
    } else {
        None
    }
}

/// An address with `head` in it shows the head, whatever else it names; one
/// with none of the four words shows no part.
pub proof fn lemma_classify(url: Seq<char>)
    ensures
        contains(url, "head"@) ==> classify(url) == Some(BodyPart::Head),
        !contains(url, "head"@) && !contains(url, "torso"@) && !contains(url, "legs"@) && !contains(
            url,
            "feet"@,
        ) ==> classify(url) is None,
{
}

/// The place of a picture in the display: head, torso, legs, feet, and last
/// what shows no part.
pub open spec fn rank_of(url: Seq<char>) -> int {
    match classify(url) {
        Some(BodyPart::Head) => 0,
        Some(BodyPart::Torso) => 1,
        Some(BodyPart::Legs) => 2,
        Some(BodyPart::Feet) => 3,
        None => 4,
    }
}

/// What a picture is: its address and its size on the terminal.
pub struct ImageView {
    pub url: Seq<char>,
    pub width: TermDimension,
    pub height: TermDimension,
}

impl ImageView {
    /// A picture has an address, and is no logo of the site.
    pub open spec fn well_formed(self) -> bool {
        self.url.len() > 0 && !contains(self.url, "logo"@)
    }

    /// The place of the picture in the display.
    pub open spec fn rank(self) -> int {
        rank_of(self.url)
    }
}

/// A picture of a recommended item.
#[derive(Debug, PartialEq, Eq, Hash)]
pub struct Image {
    url: String,
    width: TermDimension,
    height: TermDimension,
}

impl View for Image {
    type V = ImageView;

    closed spec fn view(&self) -> ImageView {
        ImageView { url: self.url@, width: self.width, height: self.height }
    }
}

impl Clone for Image {
    fn clone(&self) -> (copy: Image)
        ensures
            copy@ == self@,
    {
        proof {
            use_type_invariant(self);
        }
        Image { url: self.url.clone(), width: self.width, height: self.height }
    }
}

/// The picture that the attributes `src`, `width` and `height` of an
/// element describe, if they describe one: none without `src`, none with an
/// empty one, none for a logo.
pub open spec fn image_of(
    src: Option<Seq<char>>,
    width: Option<Seq<char>>,
    height: Option<Seq<char>>,
) -> Option<ImageView> {
    match src {
        None => None,
        Some(url) => {
            let view = ImageView { url, width: dimension_of(width), height: dimension_of(height) };
            if view.well_formed() {
                Some(view)
            } else {
                None
            }
        },
    }
}

/// What an optional picture is.
pub open spec fn view_of(image: Option<Image>) -> Option<ImageView> {
    match image {
        Some(i) => Some(i@),
        None => None,
    }
}

impl Image {
    #[verifier::type_invariant]
    spec fn inv(self) -> bool {
        self@.well_formed()
    }

    /// A picture at `url`, unless the address is empty or that of a logo.
    pub fn new(url: String, width: TermDimension, height: TermDimension) -> (made: Option<Image>)
        ensures
            view_of(made) == if (ImageView { url: url@, width, height }).well_formed() {
                Some(ImageView { url: url@, width, height })
            } else {
                None
            },
    {
        let chars = chars_of(url.as_str());
        let logo = chars_of("logo");
        if chars.len() == 0 || chars_contain(&chars, &logo) {
            None
        } else {
            Some(Image { url, width, height })
        }
    }

    /// The picture that the attributes of an element describe.
    pub fn from_attrs(src: Option<String>, width: Option<String>, height: Option<String>) -> (made:
        Option<Image>)
        ensures
            view_of(made) == image_of(
                text_of(src),
                text_of(width),
                text_of(height),
            ),
    {
        match src {
            None => None,
            Some(url) => Image::new(
                url,
                TermDimension::from_attr(&width),
                TermDimension::from_attr(&height),
            ),
        }
    }

    /// The address of the picture.
    pub fn url(&self) -> (url: &str)
        ensures
            url@ == self@.url,
            self@.well_formed(),
    {
        proof {
            use_type_invariant(self);
        }
        self.url.as_str()
    }

    /// The width at which the picture is shown.
    pub fn width(&self) -> (width: TermDimension)
        ensures
            width == self@.width,
    {
        self.width
    }

    /// The height at which the picture is shown.
    pub fn height(&self) -> (height: TermDimension)
        ensures
            height == self@.height,
    {
        self.height
    }

    /// Whether two pictures have the same address and the same size.
    pub fn same(&self, other: &Image) -> (same: bool)
        ensures
            same == (self@ == other@),
    {
        self.url == other.url && self.width == other.width && self.height == other.height
    }

    /// The part of the body that the picture dresses, by its address.
    pub fn body_part(&self) -> (part: Option<BodyPart>)
        ensures
            part == classify(self@.url),
    {
        let url = chars_of(self.url.as_str());
        if chars_contain(&url, &chars_of("head")) {
            return Some(BodyPart::Head);
        }
        if chars_contain(&url, &chars_of("torso")) {
            return Some(BodyPart::Torso);
        }
        if chars_contain(&url, &chars_of("legs")) {
            return Some(BodyPart::Legs);
        }
        if chars_contain(&url, &chars_of("feet")) {
            return Some(BodyPart::Feet);
        }
        None
    }

    /// The place of the picture in the display, from 0 for the head to 4
    /// for what shows no part.
    pub fn rank(&self) -> (rank: u8)
        ensures
            rank == self@.rank(),
    {
        match self.body_part() {
            Some(BodyPart::Head) => 0,
            Some(BodyPart::Torso) => 1,
            Some(BodyPart::Legs) => 2,
            Some(BodyPart::Feet) => 3,
            None => 4,
        }
    }

    /// Orders two pictures by the part of the body that they show: head,
    /// torso, legs, feet. A picture that shows no part comes after all that
    /// show one, and two such pictures are equal.
    pub fn cmp(&self, other: &Image) -> (order: Ordering)
        ensures
            match order {
                Ordering::Less => self@.rank() < other@.rank(),
                Ordering::Equal => self@.rank() == other@.rank(),
                Ordering::Greater => self@.rank() > other@.rank(),
            },
    {
        let mine = self.rank();
        let theirs = other.rank();
        if mine < theirs {
            Ordering::Less
        } else if mine == theirs {
            Ordering::Equal
        } else {
            Ordering::Greater
        }
    }
}

/// What the pictures of a vector are.
pub open spec fn image_views(images: Seq<Image>) -> Seq<ImageView> {
    images.map_values(|i: Image| i@)
}

/// The test for having the rank `k`, as a value.
pub open spec fn has_rank(k: int) -> spec_fn(ImageView) -> bool {
    |v: ImageView| v.rank() == k
}

/// The pictures in the order of their display: those of the head first,
/// then torso, legs and feet, then those that show no part; within each
/// group in the order in which they came.
pub open spec fn head_to_feet(s: Seq<ImageView>) -> Seq<ImageView> {
    s.filter(has_rank(0)) + s.filter(has_rank(1)) + s.filter(has_rank(2)) + s.filter(has_rank(3))
        + s.filter(has_rank(4))
}

/// In the order of display no picture comes before one of a lower rank.
pub proof fn lemma_head_to_feet_ordered(s: Seq<ImageView>, i: int, j: int)
    requires
        0 <= i <= j < head_to_feet(s).len(),
    ensures
        head_to_feet(s)[i].rank() <= head_to_feet(s)[j].rank(),
{
    broadcast use Seq::lemma_filter_pred;

    let a0 = s.filter(has_rank(0));
    let a1 = s.filter(has_rank(1));
    let a2 = s.filter(has_rank(2));
    let a3 = s.filter(has_rank(3));
    let a4 = s.filter(has_rank(4));
    let h = head_to_feet(s);
    assert forall|k: int| 0 <= k < h.len() implies (#[trigger] h[k]).rank() == (if k < a0.len() {
        0int
    } else if k < a0.len() + a1.len() {
        1int
    } else if k < a0.len() + a1.len() + a2.len() {
        2int
    } else if k < a0.len() + a1.len() + a2.len() + a3.len() {
        3int
    } else {
        4int
    }) by {
        if k < a0.len() {
            assert(h[k] == a0[k]);
            assert(has_rank(0)(a0[k]));
        } else if k < a0.len() + a1.len() {
            assert(h[k] == a1[k - a0.len()]);
            assert(has_rank(1)(a1[k - a0.len()]));
        } else if k < a0.len() + a1.len() + a2.len() {
            assert(h[k] == a2[k - a0.len() - a1.len()]);
            assert(has_rank(2)(a2[k - a0.len() - a1.len()]));
        } else if k < a0.len() + a1.len() + a2.len() + a3.len() {
            assert(h[k] == a3[k - a0.len() - a1.len() - a2.len()]);
            assert(has_rank(3)(a3[k - a0.len() - a1.len() - a2.len()]));
        } else {
            assert(h[k] == a4[k - a0.len() - a1.len() - a2.len() - a3.len()]);
            assert(has_rank(4)(a4[k - a0.len() - a1.len() - a2.len() - a3.len()]));
        }
    }
}

/// The order of display holds every picture as often as it was given.
pub proof fn lemma_head_to_feet_permutes(s: Seq<ImageView>)
    ensures
        head_to_feet(s).to_multiset() == s.to_multiset(),
    decreases s.len(),
{
    let a0 = s.filter(has_rank(0));
    let a1 = s.filter(has_rank(1));
    let a2 = s.filter(has_rank(2));
    let a3 = s.filter(has_rank(3));
    let a4 = s.filter(has_rank(4));
    lemma_multiset_commutative(a0 + a1 + a2 + a3, a4);
    lemma_multiset_commutative(a0 + a1 + a2, a3);
    lemma_multiset_commutative(a0 + a1, a2);
    lemma_multiset_commutative(a0, a1);
    if s.len() == 0 {
        reveal(Seq::filter);
        assert(head_to_feet(s) =~= s);
    } else {
        let t = s.drop_last();
        let x = s.last();
        assert(s =~= t.push(x));
        lemma_head_to_feet_permutes(t);
        let b0 = t.filter(has_rank(0));
        let b1 = t.filter(has_rank(1));
        let b2 = t.filter(has_rank(2));
        let b3 = t.filter(has_rank(3));
        let b4 = t.filter(has_rank(4));
        lemma_multiset_commutative(b0 + b1 + b2 + b3, b4);
        lemma_multiset_commutative(b0 + b1 + b2, b3);
        lemma_multiset_commutative(b0 + b1, b2);
        lemma_multiset_commutative(b0, b1);
        t.lemma_filter_push(x, has_rank(0));
        t.lemma_filter_push(x, has_rank(1));
        t.lemma_filter_push(x, has_rank(2));
        t.lemma_filter_push(x, has_rank(3));
        t.lemma_filter_push(x, has_rank(4));
        to_multiset_build(b0, x);
        to_multiset_build(b1, x);
        to_multiset_build(b2, x);
        to_multiset_build(b3, x);
        to_multiset_build(b4, x);
        to_multiset_build(t, x);
        assert(head_to_feet(s).to_multiset() =~= s.to_multiset());
    }
}

/// Where no picture is given twice, none is displayed twice.
pub proof fn lemma_head_to_feet_keeps_distinct(s: Seq<ImageView>)
    requires
        s.no_duplicates(),
    ensures
        head_to_feet(s).no_duplicates(),
{
    lemma_head_to_feet_permutes(s);
    s.lemma_multiset_has_no_duplicates();
    head_to_feet(s).lemma_multiset_has_no_duplicates_conv();
}

/// Pictures of one rank keep the order in which they came.
pub proof fn lemma_head_to_feet_stable(s: Seq<ImageView>, k: int)
    ensures
        head_to_feet(s).filter(has_rank(k)) == s.filter(has_rank(k)),
{
    broadcast use Seq::lemma_filter_pred;

    let a0 = s.filter(has_rank(0));
    let a1 = s.filter(has_rank(1));
    let a2 = s.filter(has_rank(2));
    let a3 = s.filter(has_rank(3));
    let a4 = s.filter(has_rank(4));
    let p = has_rank(k);
    Seq::filter_distributes_over_add(a0 + a1 + a2 + a3, a4, p);
    Seq::filter_distributes_over_add(a0 + a1 + a2, a3, p);
    Seq::filter_distributes_over_add(a0 + a1, a2, p);
    Seq::filter_distributes_over_add(a0, a1, p);
    lemma_filter_of_rank(s, 0, k);
    lemma_filter_of_rank(s, 1, k);
    lemma_filter_of_rank(s, 2, k);
    lemma_filter_of_rank(s, 3, k);
    lemma_filter_of_rank(s, 4, k);
    if k < 0 || k > 4 {
        lemma_no_other_rank(s, k);
    }
    assert(head_to_feet(s).filter(p) =~= s.filter(p));
}

/// Of the pictures of rank `j`, those of rank `k` are all or none.
proof fn lemma_filter_of_rank(s: Seq<ImageView>, j: int, k: int)
    ensures
        s.filter(has_rank(j)).filter(has_rank(k)) == if j == k {
            s.filter(has_rank(j))
        } else {
            Seq::empty()
        },
    decreases s.len(),
{
    reveal(Seq::filter);
    if s.len() > 0 {
        let t = s.drop_last();
        lemma_filter_of_rank(t, j, k);
        if has_rank(j)(s.last()) {
            t.filter(has_rank(j)).lemma_filter_push(s.last(), has_rank(k));
        }
    }
}

/// No picture has a rank under 0 or over 4.
proof fn lemma_no_other_rank(s: Seq<ImageView>, k: int)
    requires
        k < 0 || k > 4,
    ensures
        s.filter(has_rank(k)) == Seq::<ImageView>::empty(),
    decreases s.len(),
{
    reveal(Seq::filter);
    if s.len() > 0 {
        lemma_no_other_rank(s.drop_last(), k);
    }
}

/// Puts pictures in the order of their display.
pub fn sort_images(images: &Vec<Image>) -> (sorted: Vec<Image>)
    ensures
        image_views(sorted@) == head_to_feet(image_views(images@)),
{
    let n = images.len();
    let ghost views = image_views(images@);
    let mut ranks: Vec<u8> = Vec::new();
    let mut i: usize = 0;
    while i < n
        invariant
            n == images.len(),
            i <= n,
            ranks.len() == i,
            forall|j: int| 0 <= j < i ==> ranks@[j] == images@[j]@.rank(),
        decreases n - i,
    {
        ranks.push(images[i].rank());
        i = i + 1;
    }
    let mut sorted: Vec<Image> = Vec::new();
    let ghost mut done: Seq<ImageView> = Seq::empty();
    let mut rank: u8 = 0;
    while rank < 5
        invariant
            n == images.len(),
            ranks.len() == n,
            views == image_views(images@),
            forall|j: int| 0 <= j < n ==> ranks@[j] == images@[j]@.rank(),
            rank <= 5,
            image_views(sorted@) == done,
            done == if rank == 0 {
                Seq::empty()
            } else if rank == 1 {
                views.filter(has_rank(0))
            } else if rank == 2 {
                views.filter(has_rank(0)) + views.filter(has_rank(1))
            } else if rank == 3 {
                views.filter(has_rank(0)) + views.filter(has_rank(1)) + views.filter(has_rank(2))
            } else if rank == 4 {
                views.filter(has_rank(0)) + views.filter(has_rank(1)) + views.filter(has_rank(2))
                    + views.filter(has_rank(3))
            } else {
                head_to_feet(views)
            },
        decreases 5 - rank,
    {
        let ghost before = done;
        let mut k: usize = 0;
        proof {
            reveal(Seq::filter);
            assert(views.take(0) =~= Seq::<ImageView>::empty());
            assert(image_views(sorted@) =~= before + views.take(0).filter(has_rank(rank as int)));
        }
        while k < n
            invariant
                n == images.len(),
                ranks.len() == n,
                views == image_views(images@),
                forall|j: int| 0 <= j < n ==> ranks@[j] == images@[j]@.rank(),
                k <= n,
                rank < 5,
                image_views(sorted@) == before + views.take(k as int).filter(
                    has_rank(rank as int),
                ),
            decreases n - k,
        {
            proof {
                assert(views.take(k + 1) =~= views.take(k as int).push(views[k as int]));
                views.take(k as int).lemma_filter_push(views[k as int], has_rank(rank as int));
            }
            if ranks[k] == rank {
                let ghost old_sorted = sorted@;
                sorted.push(images[k].clone());
                assert(image_views(sorted@) =~= image_views(old_sorted).push(views[k as int]));
                assert(image_views(sorted@) =~= before + views.take(k + 1).filter(
                    has_rank(rank as int),
                ));
            }
            k = k + 1;
        }
        proof {
            assert(views.take(n as int) =~= views);
            done = before + views.filter(has_rank(rank as int));
            assert(Seq::<ImageView>::empty() + views.filter(has_rank(0)) =~= views.filter(
                has_rank(0),
            ));
        }
        rank = rank + 1;
    }
    sorted
}

/// Whether a picture with the same address and size is among `images`.
pub fn holds_image(images: &Vec<Image>, image: &Image) -> (found: bool)
    ensures
        found == image_views(images@).contains(image@),
{
    let n = images.len();
    let mut i: usize = 0;
    while i < n
        invariant
            n == images.len(),
            i <= n,
            forall|j: int| 0 <= j < i ==> image_views(images@)[j] != image@,
        decreases n - i,
    {
        if images[i].same(image) {
            assert(image_views(images@)[i as int] == image@);
            return true;
        }
        i = i + 1;
    }
    false
}

} // verus!
