//! The recommendation page: the pictures and descriptions that stand in
//! the cells of its tables.
//!
//! A page is read in two steps. The first takes from the document what the
//! cells hold, as plain values: the attributes of their `img` elements and
//! the texts of their paragraphs. The second decides, on those values
//! alone, which pictures and descriptions are kept.

use select::document::Document;
use vstd::prelude::*;
use vstd::seq_lib::to_multiset_contains;
use crate::dom::{
    attr, attr_of, document_of, elements_below, find_by_attr, find_named, find_nested,
    first_child, first_child_of, fits, last_child, last_child_of, nested_below, nodes_with_attr,
    parse_document, parsed, text, text_below, MAX_PAGE_BYTES,
};
use crate::image::{
    head_to_feet, holds_image, image_of, image_views, lemma_head_to_feet_keeps_distinct,
    lemma_head_to_feet_permutes, sort_images, view_of, Image, ImageView,
};
use crate::text::{contains, text_contains, text_of};
use crate::unique::{
    lemma_unique_keeps_values, lemma_unique_no_duplicates, lemma_unique_push, unique,
};

verus! {

/// The attributes of an `img` element of which a picture is made.
#[derive(Debug, Clone, PartialEq, Eq, Default)]
pub struct ImgAttrs {
    pub src: Option<String>,
    pub width: Option<String>,
    pub height: Option<String>,
}

/// The attributes of an `img` element as texts.
pub struct ImgAttrsView {
    pub src: Option<Seq<char>>,
    pub width: Option<Seq<char>>,
    pub height: Option<Seq<char>>,
}

impl View for ImgAttrs {
    type V = ImgAttrsView;

    open spec fn view(&self) -> ImgAttrsView {
        ImgAttrsView {
            src: text_of(self.src),
            width: text_of(self.width),
            height: text_of(self.height),
        }
    }
}

/// What a paragraph gives: the item, which is the text of its first child,
/// and the description, which is the text of its last.
#[derive(Debug, Clone, PartialEq, Eq, Default)]
pub struct Paragraph {
    pub item: Option<String>,
    pub desc: Option<String>,
}

/// What a paragraph gives, as texts.
pub struct ParagraphView {
    pub item: Option<Seq<char>>,
    pub desc: Option<Seq<char>>,
}

impl View for Paragraph {
    type V = ParagraphView;

    open spec fn view(&self) -> ParagraphView {
        ParagraphView { item: text_of(self.item), desc: text_of(self.desc) }
    }
}

/// What a cell of the page holds: its `img` elements and its paragraphs,
/// in the order of the document.
#[derive(Debug, Clone, PartialEq, Eq, Default)]
pub struct Cell {
    pub imgs: Vec<ImgAttrs>,
    pub paragraphs: Vec<Paragraph>,
}

/// What a cell holds, as texts.
pub struct CellView {
    pub imgs: Seq<ImgAttrsView>,
    pub paragraphs: Seq<ParagraphView>,
}

/// What a vector of attributes holds.
pub open spec fn img_views(imgs: Seq<ImgAttrs>) -> Seq<ImgAttrsView> {
    imgs.map_values(|a: ImgAttrs| a@)
}

/// What a vector of paragraphs holds.
pub open spec fn paragraph_views(paragraphs: Seq<Paragraph>) -> Seq<ParagraphView> {
    paragraphs.map_values(|p: Paragraph| p@)
}

impl View for Cell {
    type V = CellView;

    open spec fn view(&self) -> CellView {
        CellView { imgs: img_views(self.imgs@), paragraphs: paragraph_views(self.paragraphs@) }
    }
}

/// What a vector of cells holds.
pub open spec fn cell_views(cells: Seq<Cell>) -> Seq<CellView> {
    cells.map_values(|c: Cell| c@)
}

/// What one region of the page recommends: the pictures in the order of
/// their display, and the items with their descriptions.
pub struct Recommendation {
    pub images: Vec<Image>,
    pub descriptions: Vec<(String, String)>,
}

/// The picture that an `img` element shows, if it shows one.
pub open spec fn picture_of(a: ImgAttrsView) -> Option<ImageView> {
    image_of(a.src, a.width, a.height)
}

/// The pictures of `cells`, as they come and as often as they come.
pub open spec fn pictures_in(cells: Seq<CellView>) -> Seq<ImageView>
    decreases cells.len(),
{
    if cells.len() == 0 {
        Seq::empty()
    } else {
        pictures_in(cells.drop_last()) + cells.last().imgs.filter_map(
            |a: ImgAttrsView| picture_of(a),
        )
    }
}

/// An item and its description as they are kept: not where either is
/// missing, not where the description is empty, and not where it holds
/// the words `Revise Conditions`.
pub open spec fn description_of(item: Option<Seq<char>>, desc: Option<Seq<char>>) -> Option<
    (Seq<char>, Seq<char>),
> {
    match (item, desc) {
        (Some(i), Some(d)) => if d.len() == 0 || contains(d, "Revise Conditions"@) {
            None
        } else {
            Some((i, d))
        },
        _ => None,
    }
}

/// What is kept of a paragraph.
pub open spec fn kept_of(p: ParagraphView) -> Option<(Seq<char>, Seq<char>)> {
    description_of(p.item, p.desc)
}

/// The descriptions of `cells`, as they come and as often as they come.
pub open spec fn descriptions_in(cells: Seq<CellView>) -> Seq<(Seq<char>, Seq<char>)>
    decreases cells.len(),
{
    if cells.len() == 0 {
        Seq::empty()
    } else {
        descriptions_in(cells.drop_last()) + cells.last().paragraphs.filter_map(
            |p: ParagraphView| kept_of(p),
        )
    }
}

/// All but the first.
pub open spec fn after_first<A>(s: Seq<A>) -> Seq<A> {
    if s.len() == 0 {
        s
    } else {
        s.skip(1)
    }
}

/// What a pair of an item and its description says.
pub open spec fn description_view(d: (String, String)) -> (Seq<char>, Seq<char>) {
    (d.0@, d.1@)
}

/// What a vector of pairs says.
pub open spec fn description_views(ds: Seq<(String, String)>) -> Seq<(Seq<char>, Seq<char>)> {
    ds.map_values(|d: (String, String)| description_view(d))
}

/// What an optional pair says.
pub open spec fn description_view_of(d: Option<(String, String)>) -> Option<(Seq<char>, Seq<char>)> {
    match d {
        Some(pair) => Some(description_view(pair)),
        None => None,
    }
}

impl Recommendation {
    /// Whether this is what `cells` recommend: each of their pictures
    /// once, from head to feet, and each description of the cells after
    /// the first once.
    pub open spec fn is_of(self, cells: Seq<CellView>) -> bool {
        &&& image_views(self.images@) == head_to_feet(unique(pictures_in(cells)))
        &&& description_views(self.descriptions@) == unique(descriptions_in(after_first(cells)))
    }
}

/// Every picture of the cells has an address and is no logo.
pub proof fn lemma_pictures_are_well_formed(cells: Seq<CellView>, v: ImageView)
    requires
        pictures_in(cells).contains(v),
    ensures
        v.well_formed(),
    decreases cells.len(),
{
    if cells.len() > 0 {
        let before = pictures_in(cells.drop_last());
        let pick = |a: ImgAttrsView| picture_of(a);
        let here = cells.last().imgs.filter_map(pick);
        let i = choose|i: int| 0 <= i < pictures_in(cells).len() && pictures_in(cells)[i] == v;
        if i < before.len() {
            assert(before[i] == v);
            lemma_pictures_are_well_formed(cells.drop_last(), v);
        } else {
            assert(here[i - before.len()] == v);
            cells.last().imgs.lemma_filter_map_contains(pick, v);
        }
    }
}

/// No description of the cells is empty or asks to revise the conditions.
pub proof fn lemma_descriptions_are_no_noise(cells: Seq<CellView>, d: (Seq<char>, Seq<char>))
    requires
        descriptions_in(cells).contains(d),
    ensures
        d.1.len() > 0,
        !contains(d.1, "Revise Conditions"@),
    decreases cells.len(),
{
    if cells.len() > 0 {
        let before = descriptions_in(cells.drop_last());
        let pick = |p: ParagraphView| kept_of(p);
        let here = cells.last().paragraphs.filter_map(pick);
        let i = choose|i: int|
            0 <= i < descriptions_in(cells).len() && descriptions_in(cells)[i] == d;
        if i < before.len() {
            assert(before[i] == d);
            lemma_descriptions_are_no_noise(cells.drop_last(), d);
        } else {
            assert(here[i - before.len()] == d);
            cells.last().paragraphs.lemma_filter_map_contains(pick, d);
        }
    }
}

/// A recommendation shows no picture twice and gives no description
/// twice; it shows what the cells show and says what the cells after the
/// first say, and nothing else.
pub proof fn lemma_recommendation_is_a_set(found: Recommendation, cells: Seq<CellView>)
    requires
        found.is_of(cells),
    ensures
        image_views(found.images@).no_duplicates(),
        description_views(found.descriptions@).no_duplicates(),
        forall|v: ImageView|
            image_views(found.images@).contains(v) <==> pictures_in(cells).contains(v),
        forall|d: (Seq<char>, Seq<char>)|
            description_views(found.descriptions@).contains(d) <==> descriptions_in(
                after_first(cells),
            ).contains(d),
{
    let pictures = unique(pictures_in(cells));
    lemma_unique_no_duplicates(pictures_in(cells));
    lemma_head_to_feet_keeps_distinct(pictures);
    lemma_head_to_feet_permutes(pictures);
    lemma_unique_no_duplicates(descriptions_in(after_first(cells)));
    assert forall|v: ImageView|
        image_views(found.images@).contains(v) <==> pictures_in(cells).contains(v) by {
        lemma_unique_keeps_values(pictures_in(cells), v);
        to_multiset_contains(pictures, v);
        to_multiset_contains(head_to_feet(pictures), v);
    }
    assert forall|d: (Seq<char>, Seq<char>)|
        description_views(found.descriptions@).contains(d) <==> descriptions_in(
            after_first(cells),
        ).contains(d) by {
        lemma_unique_keeps_values(descriptions_in(after_first(cells)), d);
    }
}

/// Keeps an item and its description unless the description is empty or
/// stands for a missing recommendation.
pub fn filter_description(item: Option<String>, desc: Option<String>) -> (kept: Option<(String, String)>)
    ensures
        description_view_of(kept) == description_of(text_of(item), text_of(desc)),
{
    match (item, desc) {
        (Some(item), Some(desc)) => {
            if desc.as_str().is_empty() || text_contains(desc.as_str(), "Revise Conditions") {
                None
            } else {
                Some((item, desc))
            }
        },
        _ => None,
    }
}

/// Whether the same item with the same description is among
/// `descriptions`.
pub fn holds_description(descriptions: &Vec<(String, String)>, d: &(String, String)) -> (found: bool)
    ensures
        found == description_views(descriptions@).contains(description_view(*d)),
{
    let n = descriptions.len();
    let mut i: usize = 0;
    while i < n
        invariant
            n == descriptions.len(),
            i <= n,
            forall|j: int| 0 <= j < i ==> description_views(descriptions@)[j] != description_view(*d),
        decreases n - i,
    {
        if descriptions[i].0 == d.0 && descriptions[i].1 == d.1 {
            assert(description_views(descriptions@)[i as int] == description_view(*d));
            return true;
        }
        i = i + 1;
    }
    false
}

/// The pictures of `cells`, each once, in the order in which they first
/// come.
pub fn images_of(cells: &Vec<Cell>) -> (images: Vec<Image>)
    ensures
        image_views(images@) == unique(pictures_in(cell_views(cells@))),
{
    let mut images: Vec<Image> = Vec::new();
    let ghost views = cell_views(cells@);
    let ghost pick = |a: ImgAttrsView| picture_of(a);
    let n = cells.len();
    let mut t: usize = 0;
    assert(views.take(0) =~= Seq::<CellView>::empty());
    assert(image_views(images@) =~= Seq::<ImageView>::empty());
    while t < n
        invariant
            n == cells.len(),
            t <= n,
            views == cell_views(cells@),
            pick == (|a: ImgAttrsView| picture_of(a)),
            image_views(images@) == unique(pictures_in(views.take(t as int))),
        decreases n - t,
    {
        let imgs = &cells[t].imgs;
        let ghost before = pictures_in(views.take(t as int));
        let ghost attrs = views[t as int].imgs;
        let m = imgs.len();
        let mut k: usize = 0;
        assert(attrs.take(0) =~= Seq::<ImgAttrsView>::empty());
        assert(before + attrs.take(0).filter_map(pick) =~= before);
        while k < m
            invariant
                m == imgs.len(),
                k <= m,
                attrs == img_views(imgs@),
                pick == (|a: ImgAttrsView| picture_of(a)),
                image_views(images@) == unique(before + attrs.take(k as int).filter_map(pick)),
            decreases m - k,
        {
            let ghost so_far = before + attrs.take(k as int).filter_map(pick);
            proof {
                attrs.lemma_filter_map_take_succ(pick, k as int);
            }
            let a = &imgs[k];
            match Image::from_attrs(a.src.clone(), a.width.clone(), a.height.clone()) {
                Some(image) => {
                    proof {
                        lemma_unique_push(so_far, image@);
                        assert(before + attrs.take(k + 1).filter_map(pick) =~= so_far + seq![
                            image@,
                        ]);
                    }
                    if !holds_image(&images, &image) {
                        let ghost old_images = images@;
                        images.push(image);
                        assert(image_views(images@) =~= image_views(old_images).push(image@));
                    }
                },
                None => {
                    assert(before + attrs.take(k + 1).filter_map(pick) =~= so_far);
                },
            }
            k = k + 1;
        }
        proof {
            assert(attrs.take(m as int) =~= attrs);
            assert(views.take(t + 1).drop_last() =~= views.take(t as int));
        }
        t = t + 1;
    }
    assert(views.take(n as int) =~= views);
    images
}

/// The descriptions of the cells after the first, each once, in the order
/// in which they first come.
pub fn descriptions_of(cells: &Vec<Cell>) -> (descs: Vec<(String, String)>)
    ensures
        description_views(descs@) == unique(descriptions_in(after_first(cell_views(cells@)))),
{
    let mut descs: Vec<(String, String)> = Vec::new();
    let n = cells.len();
    assert(description_views(descs@) =~= Seq::<(Seq<char>, Seq<char>)>::empty());
    if n == 0 {
        return descs;
    }
    let ghost views = after_first(cell_views(cells@));
    let ghost pick = |p: ParagraphView| kept_of(p);
    let mut t: usize = 1;
    assert(views.take(0) =~= Seq::<CellView>::empty());
    while t < n
        invariant
            n == cells.len(),
            1 <= t <= n,
            views == after_first(cell_views(cells@)),
            pick == (|p: ParagraphView| kept_of(p)),
            description_views(descs@) == unique(descriptions_in(views.take(t - 1))),
        decreases n - t,
    {
        let paragraphs = &cells[t].paragraphs;
        let ghost before = descriptions_in(views.take(t - 1));
        let ghost given = views[t - 1].paragraphs;
        let m = paragraphs.len();
        let mut k: usize = 0;
        assert(given.take(0) =~= Seq::<ParagraphView>::empty());
        assert(before + given.take(0).filter_map(pick) =~= before);
        while k < m
            invariant
                m == paragraphs.len(),
                k <= m,
                given == paragraph_views(paragraphs@),
                pick == (|p: ParagraphView| kept_of(p)),
                description_views(descs@) == unique(before + given.take(k as int).filter_map(pick)),
            decreases m - k,
        {
            let ghost so_far = before + given.take(k as int).filter_map(pick);
            proof {
                given.lemma_filter_map_take_succ(pick, k as int);
            }
            let p = &paragraphs[k];
            match filter_description(p.item.clone(), p.desc.clone()) {
                Some(d) => {
                    proof {
                        lemma_unique_push(so_far, description_view(d));
                        assert(before + given.take(k + 1).filter_map(pick) =~= so_far + seq![
                            description_view(d),
                        ]);
                    }
                    if !holds_description(&descs, &d) {
                        let ghost old_descs = descs@;
                        descs.push(d);
                        assert(description_views(descs@) =~= description_views(old_descs).push(
                            description_view(d),
                        ));
                    }
                },
                None => {
                    assert(before + given.take(k + 1).filter_map(pick) =~= so_far);
                },
            }
            k = k + 1;
        }
        proof {
            assert(given.take(m as int) =~= given);
            assert(views.take(t as int).drop_last() =~= views.take(t - 1));
        }
        t = t + 1;
    }
    assert(views.take(n - 1) =~= views);
    descs
}

/// What `cells` recommend.
pub fn recommendation_of(cells: &Vec<Cell>) -> (found: Recommendation)
    ensures
        found.is_of(cell_views(cells@)),
{
    let images = images_of(cells);
    let sorted = sort_images(&images);
    let descriptions = descriptions_of(cells);
    Recommendation { images: sorted, descriptions }
}

/// The attributes of the element at `node`.
pub open spec fn img_at(doc: Document, node: usize) -> ImgAttrsView {
    ImgAttrsView {
        src: attr_of(doc, node, "src"@),
        width: attr_of(doc, node, "width"@),
        height: attr_of(doc, node, "height"@),
    }
}

/// The text below an optional node.
pub open spec fn text_of_child(doc: Document, child: Option<usize>) -> Option<Seq<char>> {
    match child {
        Some(c) => Some(text_below(doc, c)),
        None => None,
    }
}

/// What the paragraph at `node` gives.
pub open spec fn paragraph_at(doc: Document, node: usize) -> ParagraphView {
    ParagraphView {
        item: text_of_child(doc, first_child_of(doc, node)),
        desc: text_of_child(doc, last_child_of(doc, node)),
    }
}

/// What the cell at `td` holds.
pub open spec fn cell_at(doc: Document, td: usize) -> CellView {
    CellView {
        imgs: elements_below(doc, td, "img"@).map_values(|node: usize| img_at(doc, node)),
        paragraphs: elements_below(doc, td, "p"@).map_values(|node: usize| paragraph_at(doc, node)),
    }
}

/// What the cells `tds` hold.
pub open spec fn cells_at(doc: Document, tds: Seq<usize>) -> Seq<CellView> {
    tds.map_values(|td: usize| cell_at(doc, td))
}

/// The cells of the region at `node`: those of a table within a table.
pub open spec fn cells_of(doc: Document, node: usize) -> Seq<usize> {
    nested_below(doc, node, "table"@, "table"@, "td"@)
}

/// The regions with recommendations: the elements whose `id` is
/// `content`.
pub open spec fn regions_of(doc: Document) -> Seq<usize> {
    nodes_with_attr(doc, "id"@, "content"@)
}

/// Tells whether the text of a page is short enough to be parsed.
pub fn page_fits(html: &str) -> (short: bool)
    ensures
        short == fits(html@),
{
    html.as_bytes().len() <= MAX_PAGE_BYTES
}

/// Parses the text of a page that is short enough.
pub fn parse_page(html: &str) -> (doc: Document)
    requires
        fits(html@),
    ensures
        doc == document_of(html@),
        parsed(doc),
{
    parse_document(html)
}

/// Reads the attributes of the element at `node`.
pub fn read_img(doc: &Document, node: usize) -> (attrs: ImgAttrs)
    requires
        parsed(*doc),
    ensures
        attrs@ == img_at(*doc, node),
{
    ImgAttrs {
        src: attr(doc, node, "src"),
        width: attr(doc, node, "width"),
        height: attr(doc, node, "height"),
    }
}

/// Reads the paragraph at `node`.
pub fn read_paragraph(doc: &Document, node: usize) -> (paragraph: Paragraph)
    requires
        parsed(*doc),
    ensures
        paragraph@ == paragraph_at(*doc, node),
{
    let item = match first_child(doc, node) {
        Some(child) => Some(text(doc, child)),
        None => None,
    };
    let desc = match last_child(doc, node) {
        Some(child) => Some(text(doc, child)),
        None => None,
    };
    Paragraph { item, desc }
}

/// Reads the cell at `td`.
pub fn read_cell(doc: &Document, td: usize) -> (cell: Cell)
    requires
        parsed(*doc),
    ensures
        cell@ == cell_at(*doc, td),
{
    let img_nodes = find_named(doc, td, "img");
    let mut imgs: Vec<ImgAttrs> = Vec::new();
    let mut i: usize = 0;
    while i < img_nodes.len()
        invariant
            parsed(*doc),
            i <= img_nodes.len(),
            imgs.len() == i,
            forall|j: int| 0 <= j < i ==> (#[trigger] imgs[j])@ == img_at(*doc, img_nodes[j]),
        decreases img_nodes.len() - i,
    {
        imgs.push(read_img(doc, img_nodes[i]));
        i = i + 1;
    }
    let p_nodes = find_named(doc, td, "p");
    let mut paragraphs: Vec<Paragraph> = Vec::new();
    let mut k: usize = 0;
    while k < p_nodes.len()
        invariant
            parsed(*doc),
            k <= p_nodes.len(),
            paragraphs.len() == k,
            forall|j: int| 0 <= j < k ==> (#[trigger] paragraphs[j])@ == paragraph_at(*doc, p_nodes[j]),
        decreases p_nodes.len() - k,
    {
        paragraphs.push(read_paragraph(doc, p_nodes[k]));
        k = k + 1;
    }
    let cell = Cell { imgs, paragraphs };
    assert(cell@.imgs =~= cell_at(*doc, td).imgs);
    assert(cell@.paragraphs =~= cell_at(*doc, td).paragraphs);
    cell
}

/// Reads the cells `tds`.
pub fn read_cells(doc: &Document, tds: &Vec<usize>) -> (cells: Vec<Cell>)
    requires
        parsed(*doc),
    ensures
        cell_views(cells@) == cells_at(*doc, tds@),
{
    let mut cells: Vec<Cell> = Vec::new();
    let mut t: usize = 0;
    while t < tds.len()
        invariant
            parsed(*doc),
            t <= tds.len(),
            cells.len() == t,
            forall|j: int| 0 <= j < t ==> (#[trigger] cells[j])@ == cell_at(*doc, tds[j]),
        decreases tds.len() - t,
    {
        cells.push(read_cell(doc, tds[t]));
        t = t + 1;
    }
    assert(cell_views(cells@) =~= cells_at(*doc, tds@));
    cells
}

/// The picture that the element at `img_node` describes.
pub fn mk_image(doc: &Document, img_node: usize) -> (made: Option<Image>)
    requires
        parsed(*doc),
    ensures
        view_of(made) == picture_of(img_at(*doc, img_node)),
{
    let attrs = read_img(doc, img_node);
    Image::from_attrs(attrs.src, attrs.width, attrs.height)
}

/// The pictures that stand in the cells `tds`, each once, in the order in
/// which they first come.
pub fn find_images(doc: &Document, tds: &Vec<usize>) -> (images: Vec<Image>)
    requires
        parsed(*doc),
    ensures
        image_views(images@) == unique(pictures_in(cells_at(*doc, tds@))),
{
    let cells = read_cells(doc, tds);
    images_of(&cells)
}

/// The items and their descriptions that stand in the cells `tds` after
/// the first, each pair once, in the order in which they first come.
pub fn find_descriptions(doc: &Document, tds: &Vec<usize>) -> (descs: Vec<(String, String)>)
    requires
        parsed(*doc),
    ensures
        description_views(descs@) == unique(descriptions_in(after_first(cells_at(*doc, tds@)))),
{
    let cells = read_cells(doc, tds);
    descriptions_of(&cells)
}

/// The cells of the region at `node`.
pub fn content_cells(doc: &Document, node: usize) -> (tds: Vec<usize>)
    requires
        parsed(*doc),
    ensures
        tds@ == cells_of(*doc, node),
{
    find_nested(doc, node, "table", "table", "td")
}

/// The regions of the page that hold recommendations.
pub fn content_regions(doc: &Document) -> (regions: Vec<usize>)
    requires
        parsed(*doc),
    ensures
        regions@ == regions_of(*doc),
{
    find_by_attr(doc, "id", "content")
}

/// What the region at `node` recommends.
pub fn recommendation(doc: &Document, node: usize) -> (found: Recommendation)
    requires
        parsed(*doc),
    ensures
        found.is_of(cells_at(*doc, cells_of(*doc, node))),
{
    let tds = content_cells(doc, node);
    let cells = read_cells(doc, &tds);
    recommendation_of(&cells)
}

/// What the page recommends, region by region.
pub fn recommendations(doc: &Document) -> (found: Vec<Recommendation>)
    requires
        parsed(*doc),
    ensures
        found.len() == regions_of(*doc).len(),
        forall|i: int|
            0 <= i < found.len() ==> (#[trigger] found[i]).is_of(
                cells_at(*doc, cells_of(*doc, regions_of(*doc)[i])),
            ),
{
    let regions = content_regions(doc);
    let n = regions.len();
    let mut found: Vec<Recommendation> = Vec::new();
    let mut i: usize = 0;
    while i < n
        invariant
            parsed(*doc),
            n == regions.len(),
            regions@ == regions_of(*doc),
            i <= n,
            found.len() == i,
            forall|j: int|
                0 <= j < i ==> (#[trigger] found[j]).is_of(
                    cells_at(*doc, cells_of(*doc, regions_of(*doc)[j])),
                ),
        decreases n - i,
    {
        found.push(recommendation(doc, regions[i]));
        i = i + 1;
    }
    found
}

/// Reads a page that is short enough: what its text recommends, region by
/// region.
pub fn read_page(html: &str) -> (found: Vec<Recommendation>)
    requires
        fits(html@),
    ensures
        found.len() == regions_of(document_of(html@)).len(),
        forall|i: int|
            0 <= i < found.len() ==> (#[trigger] found[i]).is_of(
                cells_at(
                    document_of(html@),
                    cells_of(document_of(html@), regions_of(document_of(html@))[i]),
                ),
            ),
{
    let doc = parse_page(html);
    recommendations(&doc)
}

} // verus!
