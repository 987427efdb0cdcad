use shazam_lib::response::{
    collect_genre_names, format_duration_line, format_match_line, GenreAttributes, GenreResource,
    Match, Relationship, RelationshipItem, Resources, Results, ShazamSong, ShazamSongAttributes,
    ShazamSongRelationships, SongMeta,
};
use shazam_lib::text::{cut_at_first, join_slices, join_strings};
use shazam_lib::{ExtractionContext, ShazamResponse};

fn song(title: &str, artist: &str) -> ShazamSong {
    ShazamSong {
        attributes: ShazamSongAttributes {
            title: title.to_string(),
            artist: artist.to_string(),
            explicit: false,
            web_url: None,
        },
        meta: None,
        relationships: None,
    }
}

fn with_genres(mut s: ShazamSong, ids: &[&str]) -> ShazamSong {
    let data = ids.iter().map(|id| RelationshipItem { id: id.to_string() }).collect();
    s.relationships = Some(ShazamSongRelationships { genres: Some(Relationship { data }) });
    s
}

fn genre(name: &str) -> GenreResource {
    GenreResource { attributes: GenreAttributes { name: name.to_string() } }
}

fn response(ids: &[&str], resources: Resources) -> ShazamResponse {
    let matches = ids.iter().map(|id| Match { id: id.to_string() }).collect();
    ShazamResponse { results: Results { matches }, resources }
}

fn resources(songs: Vec<(&str, ShazamSong)>, genres: &[(&str, &str)]) -> Resources {
    let mut r = Resources::new();
    for (id, s) in songs {
        r.insert_song(id.to_string(), s);
    }
    for (id, name) in genres {
        r.insert_genre(id.to_string(), genre(name));
    }
    r
}

const GENRES: [(&str, &str); 4] =
    [("1", "Pop"), ("2", "Music"), ("3", "Classical"), ("4", "Modern Era")];

#[test]
fn song_that_fits_the_file() {
    let mut s = with_genres(song("Rolling In the Deep", "Los Vasquez Sounds"), &["1", "2", "3", "4"]);
    s.meta = Some(SongMeta { match_offset: 112, duration: 227 });
    s.attributes.web_url =
        Some("https://www.shazam.com/track/54116254/rolling-in-the-deep?co=US&video=v3".to_string());
    let r = response(&["54116254"], resources(vec![("54116254", s)], &GENRES));
    let ctx = ExtractionContext { file_duration_ms: 227_500, sample_start_ms: 111_750 };
    let expected = "Rolling In the Deep \u{2014} Los Vasquez Sounds\n\
        Genres:   Pop, Music, Classical, Modern Era\n\
        Duration: 3:47\n\
        Matched:  1:52 into song\n\
        https://www.shazam.com/track/54116254/rolling-in-the-deep";
    assert_eq!(r.format_display(Some(&ctx)), expected);
    assert_eq!(r.format_display(None), expected);
}

#[test]
fn song_that_differs_from_the_file() {
    let mut s = song("Some Track", "Some Artist");
    s.meta = Some(SongMeta { match_offset: 45, duration: 210 });
    let r = response(&["x"], resources(vec![("x", s)], &[]));
    let ctx = ExtractionContext { file_duration_ms: 422_000, sample_start_ms: 60_000 };
    assert_eq!(
        r.format_display(Some(&ctx)),
        "Some Track \u{2014} Some Artist\n\
        Duration: 3:30 (song) vs 7:02 (file)\n\
        Matched:  0:45 in song vs 1:00 in file",
    );
}

#[test]
fn explicit_song() {
    let mut s = song("T", "A");
    s.attributes.explicit = true;
    s.attributes.web_url = Some("https://example.org/t".to_string());
    let r = response(&["x"], resources(vec![("x", s)], &[]));
    assert_eq!(r.format_display(None), "T \u{2014} A\n[Explicit]\nhttps://example.org/t");
}

#[test]
fn bare_song() {
    let r = response(&["x"], resources(vec![("x", song("", ""))], &[]));
    assert_eq!(r.format_display(None), " \u{2014} ");
}

#[test]
fn no_match() {
    assert_eq!(response(&[], Resources::new()).format_display(None), "No match found.");
    let r = response(&["y"], resources(vec![("x", song("T", "A"))], &[]));
    assert_eq!(r.format_display(None), "No match found.");
    let r = response(&["y", "x"], resources(vec![("x", song("T", "A"))], &[]));
    assert_eq!(r.format_display(None), "No match found.");
}

#[test]
fn only_the_first_match_counts() {
    let songs = || vec![("x", song("T", "A")), ("y", song("U", "B"))];
    let one = response(&["x"], resources(songs(), &[]));
    let two = response(&["x", "y"], resources(songs(), &[]));
    assert_eq!(one.format_display(None), two.format_display(None));
    let few = response(&["x"], resources(vec![("x", song("T", "A"))], &[]));
    assert_eq!(one.format_display(None), few.format_display(None));
    let other = response(&["y", "x"], resources(songs(), &[]));
    assert_eq!(other.format_display(None), "U \u{2014} B");
}

#[test]
fn later_entry_replaces_an_earlier_one() {
    let r = response(&["x"], resources(vec![("x", song("T", "A")), ("x", song("U", "B"))], &[]));
    assert_eq!(r.format_display(None), "U \u{2014} B");
}

#[test]
fn genres_in_order_of_reference() {
    let r = resources(vec![], &GENRES);
    let s = with_genres(song("T", "A"), &["3", "9", "1", "3"]);
    assert_eq!(collect_genre_names(&r, &s), vec!["Classical", "Pop", "Classical"]);
    assert!(collect_genre_names(&r, &with_genres(song("T", "A"), &["9"])).is_empty());
    assert!(collect_genre_names(&r, &song("T", "A")).is_empty());
    let mut s = song("T", "A");
    s.relationships = Some(ShazamSongRelationships { genres: None });
    assert!(collect_genre_names(&r, &s).is_empty());
}

#[test]
fn unknown_genres_give_no_line() {
    let s = with_genres(song("T", "A"), &["9"]);
    let r = response(&["x"], resources(vec![("x", s)], &GENRES));
    assert_eq!(r.format_display(None), "T \u{2014} A");
}

#[test]
fn five_seconds_are_no_difference() {
    let meta = SongMeta { match_offset: 100, duration: 200 };
    let ctx = |file_duration_ms, sample_start_ms| ExtractionContext { file_duration_ms, sample_start_ms };
    for (file, start) in [(195_000, 95_000), (205_999, 105_999), (200_000, 100_000)] {
        let c = ctx(file, start);
        assert_eq!(format_duration_line(&meta, Some(&c)), "Duration: 3:20");
        assert_eq!(format_match_line(&meta, Some(&c)), "Matched:  1:40 into song");
    }
    let c = ctx(194_999, 94_999);
    assert_eq!(format_duration_line(&meta, Some(&c)), "Duration: 3:20 (song) vs 3:14 (file)");
    assert_eq!(format_match_line(&meta, Some(&c)), "Matched:  1:40 in song vs 1:34 in file");
    let c = ctx(206_000, 106_000);
    assert_eq!(format_duration_line(&meta, Some(&c)), "Duration: 3:20 (song) vs 3:26 (file)");
    assert_eq!(format_match_line(&meta, Some(&c)), "Matched:  1:40 in song vs 1:46 in file");
    assert_eq!(format_duration_line(&meta, None), "Duration: 3:20");
    assert_eq!(format_match_line(&meta, None), "Matched:  1:40 into song");
}

#[test]
fn times_are_padded() {
    let meta = SongMeta { match_offset: 9, duration: u64::MAX };
    assert_eq!(format_match_line(&meta, None), "Matched:  0:09 into song");
    assert_eq!(format_duration_line(&meta, None), "Duration: 307445734561825860:15");
}

#[test]
fn query_is_cut_off() {
    assert_eq!(cut_at_first("https://a/b?c?d", '?'), "https://a/b");
    assert_eq!(cut_at_first("https://a/b", '?'), "https://a/b");
    assert_eq!(cut_at_first("?", '?'), "");
    assert_eq!(cut_at_first("", '?'), "");
    assert_eq!(cut_at_first("\u{e9}\u{2014}?x", '?'), "\u{e9}\u{2014}");
}

#[test]
fn joining() {
    assert_eq!(join_slices(&vec![], ", "), "");
    assert_eq!(join_slices(&vec!["a"], ", "), "a");
    assert_eq!(join_slices(&vec!["a", "", "b"], ", "), "a, , b");
    assert_eq!(join_strings(&vec!["a".to_string(), "b".to_string()], "\n"), "a\nb");
}
