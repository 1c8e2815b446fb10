use std::cmp::Ordering;
use viktor::image::{holds_image, sort_images, BodyPart, Image, TermDimension};

fn image(url: &str) -> Image {
    Image::new(String::from(url), TermDimension::Auto, TermDimension::Auto).unwrap()
}

fn sized(url: &str, width: TermDimension, height: TermDimension) -> Image {
    Image::new(String::from(url), width, height).unwrap()
}

fn urls(images: &Vec<Image>) -> Vec<String> {
    images.iter().map(|i| String::from(i.url())).collect()
}

#[test]
fn pictures_need_an_address() {
    assert!(Image::new(String::new(), TermDimension::Auto, TermDimension::Auto).is_none());
    assert!(Image::new(String::from("a"), TermDimension::Auto, TermDimension::Auto).is_some());
}

#[test]
fn logos_are_no_pictures() {
    assert!(Image::new(String::from("/images/logo.png"), TermDimension::Auto, TermDimension::Auto)
        .is_none());
    assert!(Image::new(String::from("logo"), TermDimension::Dimension(1), TermDimension::Auto)
        .is_none());
    assert!(Image::new(String::from("/images/Logo.png"), TermDimension::Auto, TermDimension::Auto)
        .is_some());
}

#[test]
fn pictures_keep_what_they_were_made_of() {
    let i = sized("/images/head.png", TermDimension::Dimension(40), TermDimension::Auto);
    assert_eq!(i.url(), "/images/head.png");
    assert_eq!(i.width(), TermDimension::Dimension(40));
    assert_eq!(i.height(), TermDimension::Auto);
    let copy = i.clone();
    assert_eq!(copy, i);
    assert!(copy.same(&i));
}

#[test]
fn pictures_from_attributes() {
    let i = Image::from_attrs(
        Some(String::from("/images/torso.png")),
        Some(String::from("120")),
        Some(String::from("90")),
    )
    .unwrap();
    assert_eq!(i.url(), "/images/torso.png");
    assert_eq!(i.width(), TermDimension::Dimension(120));
    assert_eq!(i.height(), TermDimension::Dimension(90));
}

#[test]
fn pictures_without_a_source_are_none() {
    assert!(Image::from_attrs(None, Some(String::from("1")), Some(String::from("2"))).is_none());
    assert!(Image::from_attrs(Some(String::new()), None, None).is_none());
    assert!(Image::from_attrs(Some(String::from("/logo.gif")), None, None).is_none());
}

#[test]
fn dimensions_that_are_no_small_number_are_auto() {
    let dims = [
        (None, TermDimension::Auto),
        (Some(""), TermDimension::Auto),
        (Some("auto"), TermDimension::Auto),
        (Some("100%"), TermDimension::Auto),
        (Some("12px"), TermDimension::Auto),
        (Some("256"), TermDimension::Auto),
        (Some("-1"), TermDimension::Auto),
        (Some("1.5"), TermDimension::Auto),
        (Some("0"), TermDimension::Dimension(0)),
        (Some("255"), TermDimension::Dimension(255)),
        (Some("+8"), TermDimension::Dimension(8)),
        (Some("064"), TermDimension::Dimension(64)),
    ];
    for (attr, expected) in dims.iter() {
        let attr = attr.map(String::from);
        assert_eq!(TermDimension::from_attr(&attr), *expected, "{:?}", attr);
        let i = Image::from_attrs(Some(String::from("x")), attr.clone(), None).unwrap();
        assert_eq!(i.width(), *expected);
        assert_eq!(i.height(), TermDimension::Auto);
    }
}

#[test]
fn dimensions_as_text() {
    assert_eq!(TermDimension::Auto.to_string(), "auto");
    assert_eq!(TermDimension::Dimension(0).to_string(), "0");
    assert_eq!(TermDimension::Dimension(42).to_string(), "42");
    assert_eq!(TermDimension::Dimension(255).to_string(), "255");
}

#[test]
fn body_part_by_the_words_of_the_address() {
    assert_eq!(image("/img/head_cap.png").body_part(), Some(BodyPart::Head));
    assert_eq!(image("/img/torso_vest.png").body_part(), Some(BodyPart::Torso));
    assert_eq!(image("/img/legs_tights.png").body_part(), Some(BodyPart::Legs));
    assert_eq!(image("/img/feet_socks.png").body_part(), Some(BodyPart::Feet));
    assert_eq!(image("/img/gloves.png").body_part(), None);
    assert_eq!(image("/img/HEAD.png").body_part(), None);
}

#[test]
fn body_part_takes_the_first_word_in_the_fixed_order() {
    assert_eq!(image("/feet/legs/torso/head.png").body_part(), Some(BodyPart::Head));
    assert_eq!(image("/feet/legs/torso.png").body_part(), Some(BodyPart::Torso));
    assert_eq!(image("/feet/legs.png").body_part(), Some(BodyPart::Legs));
    assert_eq!(image("/header/feet.png").body_part(), Some(BodyPart::Head));
}

#[test]
fn ranks_run_from_head_to_feet_and_beyond() {
    assert_eq!(image("head").rank(), 0);
    assert_eq!(image("torso").rank(), 1);
    assert_eq!(image("legs").rank(), 2);
    assert_eq!(image("feet").rank(), 3);
    assert_eq!(image("watch").rank(), 4);
}

#[test]
fn comparison_follows_the_body() {
    assert_eq!(image("head").cmp(&image("torso")), Ordering::Less);
    assert_eq!(image("torso").cmp(&image("legs")), Ordering::Less);
    assert_eq!(image("legs").cmp(&image("feet")), Ordering::Less);
    assert_eq!(image("feet").cmp(&image("head")), Ordering::Greater);
    assert_eq!(image("head-a").cmp(&image("head-b")), Ordering::Equal);
}

#[test]
fn comparison_puts_what_shows_no_part_last() {
    assert_eq!(image("watch").cmp(&image("feet")), Ordering::Greater);
    assert_eq!(image("head").cmp(&image("watch")), Ordering::Less);
    assert_eq!(image("watch").cmp(&image("gloves")), Ordering::Equal);
}

#[test]
fn sorting_one_of_each_gives_head_torso_legs_feet_unclassified() {
    let given = vec![image("watch.png"), image("feet.png"), image("torso.png"), image("head.png"), image("legs.png")];
    let sorted = sort_images(&given);
    assert_eq!(urls(&sorted), vec!["head.png", "torso.png", "legs.png", "feet.png", "watch.png"]);
}

#[test]
fn sorting_keeps_every_picture_and_the_order_within_a_part() {
    let given = vec![
        image("b-watch"),
        image("legs-1"),
        image("head-2"),
        image("a-watch"),
        image("legs-1"),
        image("head-1"),
        image("feet-9"),
    ];
    let sorted = sort_images(&given);
    assert_eq!(
        urls(&sorted),
        vec!["head-2", "head-1", "legs-1", "legs-1", "feet-9", "b-watch", "a-watch"]
    );
    assert_eq!(urls(&given).len(), 7);
}

#[test]
fn sorting_nothing_gives_nothing() {
    assert!(sort_images(&Vec::new()).is_empty());
}

#[test]
fn sorting_keeps_the_sizes() {
    let given = vec![
        sized("feet", TermDimension::Dimension(1), TermDimension::Dimension(2)),
        sized("head", TermDimension::Dimension(3), TermDimension::Auto),
    ];
    let sorted = sort_images(&given);
    assert_eq!(sorted[0], given[1]);
    assert_eq!(sorted[1], given[0]);
}

#[test]
fn holding_a_picture_means_same_address_and_size() {
    let held = vec![
        sized("head", TermDimension::Dimension(1), TermDimension::Dimension(2)),
        image("feet"),
    ];
    assert!(holds_image(&held, &sized("head", TermDimension::Dimension(1), TermDimension::Dimension(2))));
    assert!(holds_image(&held, &image("feet")));
    assert!(!holds_image(&held, &image("head")));
    assert!(!holds_image(&held, &sized("head", TermDimension::Dimension(1), TermDimension::Dimension(3))));
    assert!(!holds_image(&held, &sized("head", TermDimension::Dimension(2), TermDimension::Dimension(2))));
    assert!(!holds_image(&Vec::new(), &image("feet")));
}
