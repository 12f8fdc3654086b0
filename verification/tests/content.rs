use zodiac_bot::content::{
    text_path, Category, ContentBundle, ContentLibrary, ContentNotFound, CATEGORY_COUNT,
};
use zodiac_bot::sign::Sign;

fn help() -> ContentBundle {
    ContentBundle { text: "I am help".to_string(), image: "help.png".to_string() }
}

fn empty() -> ContentLibrary {
    ContentLibrary::new("fallback.png".to_string(), help())
}

fn full() -> ContentLibrary {
    let mut library = empty();
    for i in 0..12 {
        let sign = Sign::at(i).unwrap();
        library.put_image(sign, format!("{}.png", sign.name()));
        for category in [Category::Car, Category::Track, Category::Monthly] {
            library.put_text(sign, category, format!("{} for {}", category.word(), sign.name()));
        }
    }
    library
}

#[test]
fn categories() {
    assert_eq!(CATEGORY_COUNT, 3);
    assert_eq!(Category::Car.index(), 0);
    assert_eq!(Category::Track.index(), 1);
    assert_eq!(Category::Monthly.index(), 2);
    assert_eq!(Category::Car.dir(), "cars");
    assert_eq!(Category::Track.dir(), "tracks");
    assert_eq!(Category::Monthly.dir(), "monthly");
    assert_eq!(Category::Car.word(), "car");
    assert_eq!(Category::Track.word(), "track");
    assert_eq!(Category::Monthly.word(), "monthly");
}

#[test]
fn text_paths() {
    assert_eq!(text_path(Sign::Leo, Category::Car), "content/cars/leo.txt");
    assert_eq!(text_path(Sign::Sagittarius, Category::Track), "content/tracks/sagittarius.txt");
    assert_eq!(text_path(Sign::Aries, Category::Monthly), "content/monthly/aries.txt");
}

#[test]
fn an_empty_library_resolves_nothing() {
    let library = empty();
    assert!(!library.is_complete());
    assert_eq!(
        library.resolve(Sign::Leo, Category::Car),
        Err(ContentNotFound { sign: Sign::Leo, category: Category::Car })
    );
    assert_eq!(library.image_for(Sign::Leo), "fallback.png");
    assert_eq!(library.help(), help());
}

#[test]
fn resolve_gives_text_and_image() {
    let mut library = empty();
    library.put_text(Sign::Leo, Category::Car, "a roaring coupe".to_string());
    library.put_image(Sign::Leo, "leo.png".to_string());
    assert_eq!(
        library.resolve(Sign::Leo, Category::Car),
        Ok(ContentBundle { text: "a roaring coupe".to_string(), image: "leo.png".to_string() })
    );
    assert_eq!(
        library.resolve(Sign::Leo, Category::Track),
        Err(ContentNotFound { sign: Sign::Leo, category: Category::Track })
    );
    assert_eq!(
        library.resolve(Sign::Virgo, Category::Car),
        Err(ContentNotFound { sign: Sign::Virgo, category: Category::Car })
    );
}

#[test]
fn resolve_falls_back_where_the_image_is_missing() {
    let mut library = empty();
    library.put_text(Sign::Leo, Category::Car, "a roaring coupe".to_string());
    assert_eq!(
        library.resolve(Sign::Leo, Category::Car),
        Ok(ContentBundle {
            text: "a roaring coupe".to_string(),
            image: "fallback.png".to_string()
        })
    );
}

#[test]
fn put_replaces() {
    let mut library = empty();
    library.put_text(Sign::Leo, Category::Car, "first".to_string());
    library.put_text(Sign::Leo, Category::Car, "second".to_string());
    library.put_image(Sign::Leo, "one.png".to_string());
    library.put_image(Sign::Leo, "two.png".to_string());
    assert_eq!(
        library.resolve(Sign::Leo, Category::Car),
        Ok(ContentBundle { text: "second".to_string(), image: "two.png".to_string() })
    );
}

#[test]
fn a_complete_library_never_falls_back() {
    let library = full();
    assert!(library.is_complete());
    for i in 0..12 {
        let sign = Sign::at(i).unwrap();
        assert_eq!(library.image_for(sign), format!("{}.png", sign.name()));
        for category in [Category::Car, Category::Track, Category::Monthly] {
            assert_eq!(
                library.resolve(sign, category),
                Ok(ContentBundle {
                    text: format!("{} for {}", category.word(), sign.name()),
                    image: format!("{}.png", sign.name()),
                })
            );
        }
    }
}

#[test]
fn one_gap_makes_a_library_incomplete() {
    let mut library = empty();
    for i in 0..12 {
        let sign = Sign::at(i).unwrap();
        if sign != Sign::Pisces {
            library.put_image(sign, "x.png".to_string());
        }
        for category in [Category::Car, Category::Track, Category::Monthly] {
            library.put_text(sign, category, "t".to_string());
        }
    }
    assert!(!library.is_complete());
    library.put_image(Sign::Pisces, "x.png".to_string());
    assert!(library.is_complete());

    let mut other = empty();
    for i in 0..12 {
        let sign = Sign::at(i).unwrap();
        other.put_image(sign, "x.png".to_string());
        for category in [Category::Car, Category::Track, Category::Monthly] {
            if !(sign == Sign::Gemini && category == Category::Track) {
                other.put_text(sign, category, "t".to_string());
            }
        }
    }
    assert!(!other.is_complete());
}
