use photojournalism::parser::{
    get_photos, Enclosure, ExtensionElement, ExtensionList, ExtensionNamespace, FeedItem,
};

fn empty_item() -> FeedItem {
    FeedItem {
        link: None,
        title: None,
        content: None,
        description: None,
        enclosure: None,
        source_title: None,
        dublin_core_creators: None,
        extensions: Vec::new(),
    }
}

fn media_url_namespace(lists: Vec<(&str, &str, Vec<(&str, &str)>, Option<&str>)>) -> ExtensionNamespace {
    let mut out: Vec<ExtensionList> = Vec::new();
    for (element, name, attrs, value) in lists {
        out.push(ExtensionList {
            element: element.to_string(),
            elements: vec![ExtensionElement {
                name: name.to_string(),
                attrs: attrs
                    .into_iter()
                    .map(|(k, v)| (k.to_string(), v.to_string()))
                    .collect(),
                value: value.map(|v| v.to_string()),
            }],
        });
    }
    ExtensionNamespace {
        namespace: "media".to_string(),
        lists: out,
    }
}

#[test]
fn parser_can_find_images_in_cdata() {
    // Images embedded as HTML img tags inside the CDATA block of item
    // descriptions: non-standard, but the extractor finds them.
    let mut items = Vec::new();
    for i in 0..20 {
        let mut item = empty_item();
        item.link = Some(format!("https://example.org/story/{i}"));
        item.title = Some(format!("Story {i}"));
        item.description = Some(format!(
            "<p>Intro text</p><img src=\"https://example.org/img/{i}.jpg\" alt=\"Photo {i}\"><p>More text</p>"
        ));
        items.push(item);
    }
    let results = get_photos(&items);
    assert_eq!(results.len(), 20);
    assert_eq!(results[3].image_url, "https://example.org/img/3.jpg");
    assert_eq!(results[3].description, Some("Photo 3".to_string()));
}

#[test]
fn parser_ignores_feeds_without_images() {
    // A feed with no image anywhere yields no photos at all.
    let mut items = Vec::new();
    for i in 0..12 {
        let mut item = empty_item();
        item.link = Some(format!("https://example.org/story/{i}"));
        item.title = Some(format!("Story {i}"));
        item.description = Some(format!("<p>Plain paragraph number {i}</p>"));
        items.push(item);
    }
    let results = get_photos(&items);
    assert_eq!(results.len(), 0);
}

#[test]
fn parser_finds_dublin_core_correctly() {
    // Credits carried in Dublin Core creator elements, one per item, while
    // the image hides in the description HTML.
    let creators = vec![
        "Patrick Honner",
        "Yasemin Saplakoglu",
        "Madison Goldberg",
        "Alex Stone",
        "Stephen Ornes",
    ];
    let mut items = Vec::new();
    for (i, creator) in creators.iter().enumerate() {
        let mut item = empty_item();
        item.link = Some(format!("https://example.org/story/{i}"));
        item.title = Some(format!("Story {i}"));
        item.description = Some(format!(
            "<img src=\"https://example.org/img/{i}.jpg\">"
        ));
        item.dublin_core_creators = Some(vec![creator.to_string()]);
        items.push(item);
    }
    let results = get_photos(&items);
    assert_eq!(results.len(), 5);

    let expected_credits = vec![
        "Patrick Honner",
        "Yasemin Saplakoglu",
        "Madison Goldberg",
        "Alex Stone",
        "Stephen Ornes",
    ];
    let actual_credits: Vec<String> = results
        .iter()
        .filter(|photo| photo.credit.is_some())
        .map(|photo| photo.credit.clone().unwrap())
        .collect();
    assert_eq!(actual_credits, expected_credits);
}

#[test]
fn parser_finds_image_content_when_given_both_thumbnails_and_content() {
    // Items presenting both a media thumbnail and a corresponding full-size
    // media content image: the extractor always picks the latter.
    let expected_images = vec![
        "https://www.japantimes.co.jp/japantimes/uploads/images/2023/11/24/265519.jpg",
        "https://www.japantimes.co.jp/japantimes/uploads/images/2023/11/24/265520.jpg",
        "https://www.japantimes.co.jp/japantimes/uploads/images/2023/11/24/265504.jpg",
        "https://www.japantimes.co.jp/japantimes/uploads/images/2023/11/24/265517.jpg",
        "https://www.japantimes.co.jp/japantimes/uploads/images/2023/11/24/265515.jpg",
        "https://www.japantimes.co.jp/japantimes/uploads/images/2023/11/24/264691.jpg",
        "https://www.japantimes.co.jp/japantimes/uploads/images/2023/11/24/265449.jpg",
        "https://www.japantimes.co.jp/japantimes/uploads/images/2023/11/24/265482.jpg",
        "https://www.japantimes.co.jp/japantimes/uploads/images/2023/11/24/265518.JPG",
        "https://www.japantimes.co.jp/japantimes/uploads/images/2023/11/24/265295.jpg",
        "https://www.japantimes.co.jp/japantimes/uploads/images/2023/11/24/265453.JPG",
        "https://www.japantimes.co.jp/japantimes/uploads/images/2023/11/24/265428.jpg",
        "https://www.japantimes.co.jp/japantimes/uploads/images/2023/11/24/264355.jpg",
        "https://www.japantimes.co.jp/japantimes/uploads/images/2023/11/24/264360.jpg",
        "https://www.japantimes.co.jp/japantimes/uploads/images/2023/11/24/265460.jpg",
        "https://www.japantimes.co.jp/japantimes/uploads/images/2023/11/24/265323.JPG",
        "https://www.japantimes.co.jp/japantimes/uploads/images/2023/11/24/265385.JPG",
        "https://www.japantimes.co.jp/japantimes/uploads/images/2023/11/24/265370.jpg",
        "https://www.japantimes.co.jp/japantimes/uploads/images/2023/11/24/265315.jpg",
        "https://www.japantimes.co.jp/japantimes/uploads/images/2023/11/24/265342.jpg",
        "https://www.japantimes.co.jp/japantimes/uploads/images/2023/11/13/262368.jpg",
        "https://www.japantimes.co.jp/japantimes/uploads/images/2023/11/24/265444.jpg",
        "https://www.japantimes.co.jp/japantimes/uploads/images/2023/11/24/265332.jpg",
        "https://www.japantimes.co.jp/japantimes/uploads/images/2023/11/24/265265.jpg",
        "https://www.japantimes.co.jp/japantimes/uploads/images/2023/11/24/265326.jpg",
        "https://www.japantimes.co.jp/japantimes/uploads/images/2023/11/24/265266.JPG",
        "https://www.japantimes.co.jp/japantimes/uploads/images/2023/11/24/265337.JPG",
        "https://www.japantimes.co.jp/japantimes/uploads/images/2023/11/24/265307.jpg",
        "https://www.japantimes.co.jp/japantimes/uploads/images/2023/11/24/265244.jpg",
        "https://www.japantimes.co.jp/japantimes/uploads/images/2023/11/24/265256.jpg",
    ];
    let mut items = Vec::new();
    for (i, content_url) in expected_images.iter().enumerate() {
        let mut item = empty_item();
        item.link = Some(format!("https://www.japantimes.co.jp/story/{i}"));
        item.title = Some(format!("Story {i}"));
        item.extensions = vec![media_url_namespace(vec![
            (
                "thumbnail",
                "media:thumbnail",
                vec![("url", "https://www.japantimes.co.jp/thumbnails/small.jpg")],
                None,
            ),
            ("content", "media:content", vec![("url", content_url)], None),
        ])];
        items.push(item);
    }
    let results = get_photos(&items);
    assert_eq!(results.len(), 30);

    let actual_images: Vec<String> = results
        .iter()
        .map(|photo| photo.image_url.clone())
        .collect();
    assert_eq!(actual_images, expected_images);
}

#[test]
fn parser_finds_image_description_when_available() {
    // A description specific to the image (media:description), separate and
    // distinct from the item description: the extractor picks the former.
    let expected_descriptions = vec![
        r###"Gaza City. Hamas seized control of Gaza in 2007, after winning legislative elections the previous year."###,
        r###"Dr. Benjamin Neel was fired over his pro-Israel postings on social media. Now he is suing his employer, NYU Langone Health."###,
        r###"Much of Americans’ spending starts well before the day after Thanksgiving, particularly online."###,
        r###"Nordstrom’s visual team tackles decorating stores beginning on the Monday evening before Thanksgiving."###,
        r###"Navigating the Black Friday Travels Sales and Deals"###,
        r###"A family of migrants from China in Texas after surrendering to Border Patrol in April."###,
        r###"Riot police in Dublin on Thursday."###,
        r###"Nikki Haley still trails former President Donald J. Trump by a wide margin in polls, but she has gained ground on Gov. Ron DeSantis of Florida, who has held the No. 2 spot in national surveys all year."###,
        r###"Cliff Albright, co-founder and executive director of the Black Voters Matter Fund, said donors and party leaders were weighing heavier investments in swing states like Michigan, Pennsylvania and Wisconsin."###,
        r###"A shop in Buenos Aires, where prices are often written in chalk to allow for frequent increases."###,
        r###"Oscar Pistorius arriving at the Pretoria High Court in 2016. A parole board granted Mr. Pistorius’s petition for parole on the basis that he had served half of his 15-year sentence."###,
        r###"Boys from the Leones baseball team at the Hermes Barros Cabas baseball stadium in Bogotá."###,
        r###"George Santos and the Very Good Reason People Lie About Nonsense"###,
        r###"Patagonia’s Yvon Chouinard On the High Stakes of Low Quality"###,
        r###"Ayana Elizabeth Johnson."###,
        r###"Investigators said the car was a Bentley that sped toward the bridge, hit a median and went airborne."###,
        r###"Mayor Dan Carter at city hall in Oshawa, Ontario. Homeless and addicted to drugs from his teenage years until he was 31, he was fired from more jobs than he could remember."###,
        r###"Davida Wynn became infected with the coronavirus in May 2020 when she was a nurse on a Covid unit, and became so ill she was put into a medically induced coma for six weeks."###,
        r###"Monetochka performing in Zurich this month."###,
        r###"Decked out shelves at John Derian’s new holiday shop, which was set up inside a store normally used as a furniture showroom."###,
    ];
    let mut items = Vec::new();
    for (i, image_description) in expected_descriptions.iter().enumerate() {
        let mut item = empty_item();
        item.link = Some(format!("https://www.nytimes.com/story/{i}"));
        item.title = Some(format!("Headline {i}"));
        item.description = Some(format!("Item summary number {i}, not about the image."));
        item.extensions = vec![media_url_namespace(vec![
            (
                "content",
                "media:content",
                vec![("url", "https://static01.nyt.com/images/photo.jpg")],
                None,
            ),
            (
                "description",
                "media:description",
                vec![],
                Some(image_description),
            ),
        ])];
        items.push(item);
    }
    let results = get_photos(&items);
    assert_eq!(results.len(), 20);

    let actual_descriptions: Vec<String> = results
        .iter()
        .filter(|photo| photo.description.is_some())
        .map(|photo| photo.description.clone().unwrap())
        .collect();
    assert_eq!(actual_descriptions, expected_descriptions);
}

#[test]
fn parser_ignores_tracking_images() {
    // Images as HTML in the content field, followed by a tracking pixel
    // (npr-rss-pixel.png): the extractor keeps the human-visible image.
    let expected_images = vec![
        "https://media.npr.org/assets/img/2023/11/24/gettyimages-545171212_wide-f811535dc28ae966a4a8f7bdf67ddedb32d2ddd2.jpg?s=600",
        "https://media.npr.org/assets/img/2023/11/21/gettyimages-17150741001_wide-32145c61f6bc746a973fc0bd85163076e06484a7.jpg?s=600",
        "https://media.npr.org/assets/img/2023/11/23/tumbleweed1_wide-3076f91497489109e1a6f8ca4b9bd4ccb5083a0a.jpg?s=600",
        "https://media.npr.org/assets/img/2023/11/22/unclaimed_9_wide-b2e5b61c87eac643d8ebff8d0bbd6be40d7c742b.jpg?s=600",
        "https://media.npr.org/assets/img/2023/11/22/gettyimages-1238265839_wide-046ef920c5ef86ca5e9be4767015bb186e07ea67.jpg?s=600",
        "https://media.npr.org/assets/img/2023/11/22/ap12071219521_wide-159ba8364b31ce07a94e9c556e8dc50722639f7a.jpg?s=600",
        "https://media.npr.org/assets/img/2023/11/23/ap23145574875419_wide-95a558d101edeb0d72230148deff52c359ef42c1.jpg?s=600",
        "https://media.npr.org/assets/img/2023/11/24/gettyimages-1801062183_wide-d016bec56d6829171a3ffad36a73640b321acfb1.jpg?s=600",
        "https://media.npr.org/assets/img/2023/11/23/ap23327703189648_wide-e0581ac6cf655f8fa93c08f81aa105a106f9348d.jpg?s=600",
        "https://media.npr.org/assets/img/2023/11/23/nup_202950_01655_wide-bd18a34d96bb995675f483cd39b31a4456456704.jpg?s=600",
        "https://media.npr.org/assets/img/2023/11/23/ap23327577669073_wide-6a98ed6c5b23a0be8255f3a43471eba93f25aa68.jpg?s=600",
        "https://media.npr.org/assets/img/2023/11/23/ap23327365871490_wide-48f7c0812c320bab175f118649f2d4711ddc8d38.jpg?s=600",
        "https://media.npr.org/assets/img/2023/11/22/npr_jordan_ayman-oghanna034_wide-1bc4631d05db2736809a5404c451400fa6052f4f.jpg?s=600",
        "https://media.npr.org/assets/img/2023/11/22/gettyimages-1711772431_wide-83e91b4ebe323d0ddcdfba8966fa951181dc6856.jpg?s=600",
    ];
    let mut items = Vec::new();
    for (i, image_url) in expected_images.iter().enumerate() {
        let mut item = empty_item();
        item.link = Some(format!("https://www.npr.org/story/{i}"));
        item.title = Some(format!("Story {i}"));
        item.content = Some(format!(
            "<img src='{image_url}' alt='Story {i}' /><p>Body text</p><img src='https://media.npr.org/include/images/tracking/npr-rss-pixel.png?story={i}' />"
        ));
        items.push(item);
    }
    let results = get_photos(&items);
    assert_eq!(results.len(), 14);

    let actual_images: Vec<String> = results
        .iter()
        .map(|photo| photo.image_url.clone())
        .collect();
    assert_eq!(actual_images, expected_images);
}

#[test]
fn enclosure_sets_image_only_for_unignored_image_mime() {
    // An image/* enclosure fills the image; a movie or tracking-pixel URL
    // never does.
    let mut item = empty_item();
    item.link = Some("https://example.org/story".to_string());
    item.enclosure = Some(Enclosure {
        mime_type: "image/jpeg".to_string(),
        url: "https://example.org/enclosed.jpg".to_string(),
    });
    let results = get_photos(&vec![item]);
    assert_eq!(results.len(), 1);
    assert_eq!(results[0].image_url, "https://example.org/enclosed.jpg");

    let mut movie = empty_item();
    movie.link = Some("https://example.org/story".to_string());
    movie.enclosure = Some(Enclosure {
        mime_type: "video/mp4".to_string(),
        url: "https://example.org/clip.mp4".to_string(),
    });
    let mut pixel = empty_item();
    pixel.link = Some("https://example.org/story".to_string());
    pixel.enclosure = Some(Enclosure {
        mime_type: "image/png".to_string(),
        url: "https://example.org/npr-rss-pixel.png".to_string(),
    });
    assert_eq!(get_photos(&vec![movie, pixel]).len(), 0);
}

#[test]
fn extension_url_with_tracking_pixel_is_never_selected() {
    // A media extension whose URL holds the tracking-pixel fragment is
    // rejected by the ignore filter, so the earlier image candidate stays.
    let mut item = empty_item();
    item.link = Some("https://example.org/story".to_string());
    item.description = Some("<img src=\"https://example.org/real.jpg\">".to_string());
    item.extensions = vec![media_url_namespace(vec![(
        "content",
        "media:content",
        vec![("url", "https://example.org/npr-rss-pixel.png")],
        None,
    )])];
    let results = get_photos(&vec![item]);
    assert_eq!(results.len(), 1);
    assert_eq!(results[0].image_url, "https://example.org/real.jpg");
}

#[test]
fn atom_link_overrides_story_url() {
    // An atom:link extension's href is the final authority on the story URL.
    let mut item = empty_item();
    item.link = Some("https://example.org/plain-link".to_string());
    item.description = Some("<img src=\"https://example.org/img.jpg\">".to_string());
    item.extensions = vec![ExtensionNamespace {
        namespace: "atom".to_string(),
        lists: vec![ExtensionList {
            element: "link".to_string(),
            elements: vec![ExtensionElement {
                name: "atom:link".to_string(),
                attrs: vec![
                    ("rel".to_string(), "alternate".to_string()),
                    ("href".to_string(), "https://example.org/canonical".to_string()),
                ],
                value: None,
            }],
        }],
    }];
    let results = get_photos(&vec![item]);
    assert_eq!(results.len(), 1);
    assert_eq!(results[0].story_url, "https://example.org/canonical");
}

#[test]
fn media_credit_overrides_dublin_core() {
    // Both a Dublin Core creator and a media:credit: the media credit wins.
    let mut item = empty_item();
    item.link = Some("https://example.org/story".to_string());
    item.description = Some("<img src=\"https://example.org/img.jpg\">".to_string());
    item.source_title = Some("Source Feed".to_string());
    item.dublin_core_creators = Some(vec!["A. Author".to_string(), "B. Author".to_string()]);
    item.extensions = vec![media_url_namespace(vec![(
        "credit",
        "media:credit",
        vec![],
        Some("Photographer C"),
    )])];
    let results = get_photos(&vec![item]);
    assert_eq!(results.len(), 1);
    assert_eq!(results[0].credit, Some("Photographer C".to_string()));
}

#[test]
fn dublin_core_creators_join_with_commas() {
    let mut item = empty_item();
    item.link = Some("https://example.org/story".to_string());
    item.description = Some("<img src=\"https://example.org/img.jpg\">".to_string());
    item.dublin_core_creators = Some(vec!["A. Author".to_string(), "B. Author".to_string()]);
    let results = get_photos(&vec![item]);
    assert_eq!(results.len(), 1);
    assert_eq!(results[0].credit, Some("A. Author, B. Author".to_string()));
}

#[test]
fn extract_all_is_idempotent() {
    // The same decoded document always yields identical output.
    let mut items = Vec::new();
    for i in 0..6 {
        let mut item = empty_item();
        item.link = Some(format!("https://example.org/story/{i}"));
        item.title = Some(format!("Story {i}"));
        if i % 2 == 0 {
            item.description = Some(format!("<img src=\"https://example.org/img/{i}.jpg\">"));
        }
        items.push(item);
    }
    let first = get_photos(&items);
    let second = get_photos(&items);
    assert_eq!(first.len(), second.len());
    for (a, b) in first.iter().zip(second.iter()) {
        assert_eq!(a.image_url, b.image_url);
        assert_eq!(a.story_url, b.story_url);
        assert_eq!(a.description, b.description);
        assert_eq!(a.credit, b.credit);
    }
    assert!(first.len() <= items.len());
}
