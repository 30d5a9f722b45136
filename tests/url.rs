use puzzles::{id_to_url, PuzzleDate, PuzzleId, PuzzlesContentType, SourceId};

fn id(year: u16, month: u8, day: u8) -> PuzzleId {
    PuzzleId { source_id: SourceId::LaTimes, date: PuzzleDate { year, month, day } }
}

#[test]
fn gets_url() {
    assert_eq!(
        id_to_url(&id(2019, 1, 2)),
        (
            String::from("http://cdn.games.arkadiumhosted.com/latimes/assets/DailyCrossword/la190102.xml"),
            PuzzlesContentType::Xml
        )
    );
    assert_eq!(
        id_to_url(&id(13, 12, 28)),
        (
            String::from("http://cdn.games.arkadiumhosted.com/latimes/assets/DailyCrossword/la131228.xml"),
            PuzzlesContentType::Xml
        )
    );
    assert_eq!(
        id_to_url(&id(1, 12, 28)),
        (
            String::from("http://cdn.games.arkadiumhosted.com/latimes/assets/DailyCrossword/la011228.xml"),
            PuzzlesContentType::Xml
        )
    );
}

#[test]
fn url_year_wraps_at_century() {
    let (url, _) = id_to_url(&id(2000, 2, 29));
    assert!(url.ends_with("/la000229.xml"));
    let (url, _) = id_to_url(&id(65535, 9, 9));
    assert!(url.ends_with("/la350909.xml"));
}
