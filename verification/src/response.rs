//! The answer of the service, and how it is shown.
use crate::extract::ExtractionContext;
use crate::text::{
    append_clock, before_first, clock, cut_at_first, join_slices, join_strings, joined,
    lemma_clock_layout, lemma_joined_parts, slice_texts, texts,
};
use crate::window::{
    lemma_clock_is_injective, lemma_clock_reads_back, position_of, SamplePosition,
};
use vstd::hash_map::StringHashMap;
use vstd::prelude::*;

verus! {

/// The answer of the service.
pub struct ShazamResponse {
    /// The matches, best first.
    pub results: Results,
    /// What the matches refer to.
    pub resources: Resources,
}

/// The matches of an answer.
pub struct Results {
    /// The matches, best first.
    pub matches: Vec<Match>,
}

/// One match.
pub struct Match {
    /// The song that matches, as a key of [`Resources::shazam_songs`].
    pub id: String,
}

/// What an answer refers to.
pub struct Resources {
    /// Songs by their id.
    pub shazam_songs: StringHashMap<ShazamSong>,
    /// Genres by their id.
    pub genres: StringHashMap<GenreResource>,
}

/// A song.
pub struct ShazamSong {
    /// What is known of the song.
    pub attributes: ShazamSongAttributes,
    /// How the sample lies in the song, if known.
    pub meta: Option<SongMeta>,
    /// What the song refers to, if anything.
    pub relationships: Option<ShazamSongRelationships>,
}

/// What is known of a song.
pub struct ShazamSongAttributes {
    /// Its title.
    pub title: String,
    /// Its artist.
    pub artist: String,
    /// Whether it is marked as explicit.
    pub explicit: bool,
    /// Its page, if it has one.
    pub web_url: Option<String>,
}

/// How the sample lies in a song.
#[derive(Clone, Copy, Debug, PartialEq, Eq, Structural)]
pub struct SongMeta {
    /// Where in the song the sample starts, in whole seconds.
    pub match_offset: u64,
    /// Length of the song, in whole seconds.
    pub duration: u64,
}

/// What a song refers to.
pub struct ShazamSongRelationships {
    /// Its genres, if known.
    pub genres: Option<Relationship>,
}

/// References of one kind.
pub struct Relationship {
    /// The references.
    pub data: Vec<RelationshipItem>,
}

/// One reference.
pub struct RelationshipItem {
    /// What is referred to.
    pub id: String,
}

/// A genre.
pub struct GenreResource {
    /// What is known of the genre.
    pub attributes: GenreAttributes,
}

/// What is known of a genre.
pub struct GenreAttributes {
    /// Its name.
    pub name: String,
}

impl Resources {
    /// Nothing that could be referred to.
    pub fn new() -> (res: Self)
        ensures
            res.shazam_songs@ == Map::<Seq<char>, ShazamSong>::empty(),
            res.genres@ == Map::<Seq<char>, GenreResource>::empty(),
    {
        Resources { shazam_songs: StringHashMap::new(), genres: StringHashMap::new() }
    }

    /// Adds a song, in place of one that has the same id.
    pub fn insert_song(&mut self, id: String, song: ShazamSong)
        ensures
            final(self).shazam_songs@ == old(self).shazam_songs@.insert(id@, song),
            final(self).genres == old(self).genres,
    {
        self.shazam_songs.insert(id, song);
    }

    /// Adds a genre, in place of one that has the same id.
    pub fn insert_genre(&mut self, id: String, genre: GenreResource)
        ensures
            final(self).genres@ == old(self).genres@.insert(id@, genre),
            final(self).shazam_songs == old(self).shazam_songs,
    {
        self.genres.insert(id, genre);
    }
}

/// The genres that a song refers to.
pub open spec fn genre_refs(song: ShazamSong) -> Seq<RelationshipItem> {
    match song.relationships {
        Some(r) => match r.genres {
            Some(rel) => rel.data@,
            None => seq![],
        },
        None => seq![],
    }
}

/// The names of the genres that a song refers to, in the order of the
/// references, without those that the answer does not hold.
pub open spec fn genre_names(resources: Resources, song: ShazamSong) -> Seq<Seq<char>> {
    genre_refs(song).filter(
        |item: RelationshipItem| resources.genres@.contains_key(item.id@),
    ).map_values(|item: RelationshipItem| resources.genres@[item.id@].attributes.name@)
}

/// Whether two times in seconds differ noticeably: by more than five seconds.
pub open spec fn differ(a: int, b: int) -> bool {
    a - b > 5 || b - a > 5
}

/// The line on the length of the song, with that of the file where they differ.
pub open spec fn duration_line(meta: SongMeta, context: Option<&ExtractionContext>) -> Seq<char> {
    "Duration: "@ + clock(meta.duration as nat) + match context {
        Some(ctx) if differ(meta.duration as int, ctx.file_duration_ms as int / 1000) =>
            " (song) vs "@ + clock((ctx.file_duration_ms / 1000) as nat) + " (file)"@,
        _ => seq![],
    }
}

/// The line on where in the song the sample was found, with where it lies in
/// the file where they differ.
pub open spec fn match_line(meta: SongMeta, context: Option<&ExtractionContext>) -> Seq<char> {
    "Matched:  "@ + clock(meta.match_offset as nat) + match context {
        Some(ctx) if differ(meta.match_offset as int, ctx.sample_start_ms as int / 1000) =>
            " in song vs "@ + clock((ctx.sample_start_ms / 1000) as nat) + " in file"@,
        _ => " into song"@,
    }
}

/// The lines that show a song.
pub open spec fn song_lines(
    resources: Resources,
    song: ShazamSong,
    context: Option<&ExtractionContext>,
) -> Seq<Seq<char>> {
    let attrs = song.attributes;
    let genres = genre_names(resources, song);
    seq![attrs.title@ + " \u{2014} "@ + attrs.artist@] + (if genres.len() > 0 {
        seq!["Genres:   "@ + joined(genres, ", "@)]
    } else {
        seq![]
    }) + (if attrs.explicit {
        seq!["[Explicit]"@]
    } else {
        seq![]
    }) + (match song.meta {
        Some(meta) => seq![duration_line(meta, context), match_line(meta, context)],
        None => seq![],
    }) + (match attrs.web_url {
        Some(url) => seq![before_first(url@, '?')],
        None => seq![],
    })
}

impl ShazamResponse {
    /// The song that is shown: that of the first match, if the answer holds it.
    pub open spec fn best_song(self) -> Option<ShazamSong> {
        let matches = self.results.matches@;
        if matches.len() > 0 && self.resources.shazam_songs@.contains_key(matches[0].id@) {
            Some(self.resources.shazam_songs@[matches[0].id@])
        } else {
            None
        }
    }

    /// How the answer is shown.
    pub open spec fn display_text(self, context: Option<&ExtractionContext>) -> Seq<char> {
        match self.best_song() {
            Some(song) => joined(song_lines(self.resources, song, context), "\n"@),
            None => "No match found."@,
        }
    }
}

/// Collects the names of the genres of a song.
pub fn collect_genre_names<'res>(resources: &'res Resources, song: &ShazamSong) -> (res: Vec<
    &'res str,
>)
    ensures
        slice_texts(res@) == genre_names(*resources, *song),
{
    let mut names: Vec<&'res str> = Vec::new();
    let ghost known = |item: RelationshipItem| resources.genres@.contains_key(item.id@);
    let ghost name = |item: RelationshipItem| resources.genres@[item.id@].attributes.name@;
    let ghost refs = genre_refs(*song);
    if let Some(relationships) = &song.relationships {
        if let Some(rel) = &relationships.genres {
            let mut i: usize = 0;
            assert(refs.take(0) =~= seq![]);
            assert(refs.take(0).filter(known) =~= seq![]);
            while i < rel.data.len()
                invariant
                    i <= rel.data.len(),
                    refs == rel.data@,
                    known == |item: RelationshipItem| resources.genres@.contains_key(item.id@),
                    name == |item: RelationshipItem|
                        resources.genres@[item.id@].attributes.name@,
                    slice_texts(names@) =~= refs.take(i as int).filter(known).map_values(name),
                decreases rel.data.len() - i,
            {
                let ghost before = names@;
                proof {
                    let done = refs.take(i as int);
                    assert(refs.take(i + 1) =~= done.push(refs[i as int]));
                    assert(refs.take(i + 1).drop_last() =~= done);
                    reveal(Seq::filter);
                }
                if let Some(genre) = resources.genres.get(rel.data[i].id.as_str()) {
                    names.push(genre.attributes.name.as_str());
                    assert(slice_texts(names@) =~= slice_texts(before).push(name(refs[i as int])));
                }
                i += 1;
            }
            assert(refs.take(i as int) =~= refs);
            return names;
        }
    }
    assert(refs =~= seq![]);
    assert(refs.filter(known) =~= seq![]) by {
        reveal(Seq::filter);
    }
    assert(slice_texts(names@) =~= genre_names(*resources, *song));
    names
}

fn differs(a: u64, b: u64) -> (res: bool)
    ensures
        res == differ(a as int, b as int),
{
    if a >= b {
        a - b > 5
    } else {
        b - a > 5
    }
}

/// The line on the length of the song.
pub fn format_duration_line(meta: &SongMeta, context: Option<&ExtractionContext>) -> (res: String)
    ensures
        res@ == duration_line(*meta, context),
{
    let mut out = String::new();
    out.append("Duration: ");
    append_clock(&mut out, meta.duration);
    if let Some(ctx) = context {
        let file_secs: u64 = ctx.file_duration_ms / 1_000;
        if differs(meta.duration, file_secs) {
            out.append(" (song) vs ");
            append_clock(&mut out, file_secs);
            out.append(" (file)");
        }
    }
    assert(out@ =~= duration_line(*meta, context));
    out
}

/// The line on where in the song the sample was found.
pub fn format_match_line(meta: &SongMeta, context: Option<&ExtractionContext>) -> (res: String)
    ensures
        res@ == match_line(*meta, context),
{
    let mut out = String::new();
    out.append("Matched:  ");
    append_clock(&mut out, meta.match_offset);
    let start_secs: Option<u64> = match context {
        Some(ctx) => {
            let secs: u64 = ctx.sample_start_ms / 1_000;
            if differs(meta.match_offset, secs) {
                Some(secs)
            } else {
                None
            }
        },
        None => None,
    };
    match start_secs {
        Some(secs) => {
            out.append(" in song vs ");
            append_clock(&mut out, secs);
            out.append(" in file");
        },
        None => {
            out.append(" into song");
        },
    }
    assert(out@ =~= match_line(*meta, context));
    out
}

impl ShazamResponse {
    /// Shows the answer: the song of the first match, or that there is none.
    #[must_use]
    pub fn format_display(&self, context: Option<&ExtractionContext>) -> (res: String)
        ensures
            res@ == self.display_text(context),
    {
        if self.results.matches.len() == 0 {
            return "No match found.".to_owned();
        }
        let song = match self.resources.shazam_songs.get(self.results.matches[0].id.as_str()) {
            Some(song) => song,
            None => {
                return "No match found.".to_owned();
            },
        };
        let attrs = &song.attributes;
        let mut lines: Vec<String> = Vec::new();
        let mut heading = String::new();
        heading.append(attrs.title.as_str());
        heading.append(" \u{2014} ");
        heading.append(attrs.artist.as_str());
        lines.push(heading);

        let genre_names = collect_genre_names(&self.resources, song);
        if genre_names.len() > 0 {
            let mut line = String::new();
            line.append("Genres:   ");
            line.append(join_slices(&genre_names, ", ").as_str());
            lines.push(line);
        }
        if attrs.explicit {
            lines.push("[Explicit]".to_owned());
        }
        if let Some(meta) = &song.meta {
            lines.push(format_duration_line(meta, context));
            lines.push(format_match_line(meta, context));
        }
        if let Some(url) = &attrs.web_url {
            lines.push(cut_at_first(url.as_str(), '?').to_owned());
        }
        assert(texts(lines@) =~= song_lines(self.resources, *song, context));
        join_strings(&lines, "\n")
    }
}

/// Only the song of the first match is looked at: what matches follow it, and
/// what songs the answer holds under other ids, changes nothing.
pub proof fn lemma_only_first_match_counts(
    a: ShazamResponse,
    b: ShazamResponse,
    context: Option<&ExtractionContext>,
)
    requires
        a.results.matches@.len() > 0,
        b.results.matches@.len() > 0,
        a.results.matches@[0].id@ == b.results.matches@[0].id@,
        a.resources.genres@ == b.resources.genres@,
        ({
            let id = a.results.matches@[0].id@;
            let songs_a = a.resources.shazam_songs@;
            let songs_b = b.resources.shazam_songs@;
            &&& songs_a.contains_key(id) == songs_b.contains_key(id)
            &&& songs_a.contains_key(id) ==> songs_a[id] == songs_b[id]
        }),
    ensures
        a.display_text(context) == b.display_text(context),
{
    assert((|item: RelationshipItem| a.resources.genres@.contains_key(item.id@)) =~= (
    |item: RelationshipItem| b.resources.genres@.contains_key(item.id@)));
    assert((|item: RelationshipItem| a.resources.genres@[item.id@].attributes.name@) =~= (
    |item: RelationshipItem| b.resources.genres@[item.id@].attributes.name@));
}

/// That nothing was found is shown if and only if there is no match, or the
/// answer does not hold the song of the first match.
pub proof fn lemma_no_match_is_unmistakable(
    response: ShazamResponse,
    context: Option<&ExtractionContext>,
)
    ensures
        response.display_text(context) == "No match found."@ <==> response.best_song() is None,
{
    if let Some(song) = response.best_song() {
        let lines = song_lines(response.resources, song, context);
        let title = song.attributes.title@;
        let shown = response.display_text(context);
        let dash = title.len() as int + 1;
        reveal_strlit(" \u{2014} ");
        reveal_strlit("No match found.");
        assert(lines[0] == title + " \u{2014} "@ + song.attributes.artist@);
        assert(lines[0][dash] == '\u{2014}');
        assert(lines.first() == lines[0]);
        assert(shown[dash] == '\u{2014}');
        if shown == "No match found."@ {
            assert(dash < lines[0].len() <= shown.len());
            assert(shown[dash] == "No match found."@[dash]);
        }
    }
}

/// The length of the file is shown beside that of the song if and only if they
/// differ by more than five seconds.
pub proof fn lemma_duration_mismatch(meta: SongMeta, ctx: &ExtractionContext)
    ensures
        duration_line(meta, Some(ctx)) != duration_line(meta, None) <==> differ(
            meta.duration as int,
            ctx.file_duration_ms as int / 1000,
        ),
{
    reveal_strlit(" (file)");
    assert(duration_line(meta, Some(ctx)).len() > duration_line(meta, None).len() || !differ(
        meta.duration as int,
        ctx.file_duration_ms as int / 1000,
    ));
}

/// Where the sample lies in the file is shown beside where it was found in the
/// song if and only if the two differ by more than five seconds.
pub proof fn lemma_offset_mismatch(meta: SongMeta, ctx: &ExtractionContext)
    ensures
        match_line(meta, Some(ctx)) != match_line(meta, None) <==> differ(
            meta.match_offset as int,
            ctx.sample_start_ms as int / 1000,
        ),
{
    reveal_strlit(" in song vs ");
    reveal_strlit(" in file");
    reveal_strlit(" into song");
    assert(match_line(meta, Some(ctx)).len() > match_line(meta, None).len() || !differ(
        meta.match_offset as int,
        ctx.sample_start_ms as int / 1000,
    ));
}

/// A song without references to genres has no genre names. A reference to a
/// genre that the answer holds adds its name at the end, and any other
/// reference adds nothing.
pub proof fn lemma_genre_names_grow(
    resources: Resources,
    song: ShazamSong,
    more: ShazamSong,
    rel: Relationship,
    rel_more: Relationship,
    item: RelationshipItem,
)
    requires
        song.relationships == Some(ShazamSongRelationships { genres: Some(rel) }),
        more.relationships == Some(ShazamSongRelationships { genres: Some(rel_more) }),
        rel_more.data@ == rel.data@.push(item),
    ensures
        rel.data@.len() == 0 ==> genre_names(resources, song).len() == 0,
        resources.genres@.contains_key(item.id@) ==> genre_names(resources, more) == genre_names(
            resources,
            song,
        ).push(resources.genres@[item.id@].attributes.name@),
        !resources.genres@.contains_key(item.id@) ==> genre_names(resources, more) == genre_names(
            resources,
            song,
        ),
{
    let known = |item: RelationshipItem| resources.genres@.contains_key(item.id@);
    let name = |item: RelationshipItem| resources.genres@[item.id@].attributes.name@;
    reveal(Seq::filter);
    assert(rel_more.data@.drop_last() =~= rel.data@);
    assert(rel_more.data@.last() == item);
    if known(item) {
        assert(rel_more.data@.filter(known) =~= rel.data@.filter(known).push(item));
        assert(genre_names(resources, more) =~= genre_names(resources, song).push(name(item)));
    } else {
        assert(rel_more.data@.filter(known) =~= rel.data@.filter(known));
    }
}

/// A song that names no references to genres has no genre names.
pub proof fn lemma_no_genre_names(resources: Resources, song: ShazamSong)
    requires
        song.relationships matches Some(r) ==> (r.genres matches Some(rel) ==> rel.data@.len()
            == 0),
    ensures
        genre_names(resources, song).len() == 0,
{
    reveal(Seq::filter);
}

proof fn lemma_filter_is_empty(
    items: Seq<RelationshipItem>,
    known: spec_fn(RelationshipItem) -> bool,
)
    ensures
        items.filter(known).len() > 0 <==> exists|i: int|
            0 <= i < items.len() && known(#[trigger] items[i]),
    decreases items.len(),
{
    reveal(Seq::filter);
    if items.len() > 0 {
        let rest = items.drop_last();
        lemma_filter_is_empty(rest, known);
        assert(forall|i: int| 0 <= i < rest.len() ==> rest[i] == #[trigger] items[i]);
        if known(items.last()) {
            assert(known(items[items.len() - 1]));
        } else if exists|i: int| 0 <= i < items.len() && known(#[trigger] items[i]) {
            let i = choose|i: int| 0 <= i < items.len() && known(#[trigger] items[i]);
            assert(known(rest[i]));
        } else {
            assert forall|i: int| 0 <= i < rest.len() implies !known(#[trigger] rest[i]) by {
                assert(!known(items[i]));
            }
        }
    }
}

/// Whether a song refers to a genre that the answer holds.
pub open spec fn has_known_genre(resources: Resources, song: ShazamSong) -> bool {
    song.relationships matches Some(r) && r.genres matches Some(rel) && exists|i: int|
        0 <= i < rel.data@.len() && resources.genres@.contains_key((#[trigger] rel.data@[i]).id@)
}

/// A song has genre names if and only if it refers to a genre that the answer
/// holds.
pub proof fn lemma_known_genres(resources: Resources, song: ShazamSong)
    ensures
        genre_names(resources, song).len() > 0 <==> has_known_genre(resources, song),
{
    let known = |item: RelationshipItem| resources.genres@.contains_key(item.id@);
    let refs = genre_refs(song);
    lemma_filter_is_empty(refs, known);
    if genre_names(resources, song).len() > 0 {
        let i = choose|i: int| 0 <= i < refs.len() && known(#[trigger] refs[i]);
        assert(has_known_genre(resources, song));
    } else {
        assert(forall|i: int| 0 <= i < refs.len() ==> !known(#[trigger] refs[i]));
    }
}

/// How many lines a song is shown in, and what each of them says. The heading
/// comes first. The genres follow if and only if the answer holds one that the
/// song refers to, then the mark of an explicit song, the two lines on how the
/// sample lies in the song, and the link without its query, each if and only if
/// it is there to be shown.
pub proof fn lemma_shown_lines(
    response: ShazamResponse,
    song: ShazamSong,
    context: Option<&ExtractionContext>,
)
    requires
        response.results.matches@.len() > 0,
        response.resources.shazam_songs@.contains_key(response.results.matches@[0].id@),
        response.resources.shazam_songs@[response.results.matches@[0].id@] == song,
    ensures
        ({
            let lines = song_lines(response.resources, song, context);
            let attrs = song.attributes;
            let genres = genre_names(response.resources, song);
            let g: int = if has_known_genre(response.resources, song) {
                1
            } else {
                0
            };
            let x: int = if attrs.explicit {
                1
            } else {
                0
            };
            let m: int = if song.meta is Some {
                2
            } else {
                0
            };
            let u: int = if attrs.web_url is Some {
                1
            } else {
                0
            };
            &&& response.display_text(context) == joined(lines, "\n"@)
            &&& lines.len() == 1 + g + x + m + u
            &&& lines[0] == attrs.title@ + " \u{2014} "@ + attrs.artist@
            &&& g == 1 ==> genres.len() > 0 && lines[1] == "Genres:   "@ + joined(genres, ", "@)
            &&& g == 1 && genres.len() == 1 ==> lines[1] == "Genres:   "@ + genres[0]
            &&& x == 1 ==> lines[1 + g] == "[Explicit]"@
            &&& song.meta matches Some(meta) ==> lines[1 + g + x] == duration_line(meta, context)
                && lines[2 + g + x] == match_line(meta, context)
            &&& attrs.web_url matches Some(url) ==> lines[1 + g + x + m] == before_first(url@, '?')
        }),
{
    let genres = genre_names(response.resources, song);
    lemma_known_genres(response.resources, song);
    if genres.len() == 1 {
        assert(genres =~= seq![genres[0]]);
        lemma_joined_parts(seq![], seq![], genres[0], ", "@);
    }
}

proof fn lemma_lines_added(lines: Seq<Seq<char>>, more: Seq<Seq<char>>, sep: Seq<char>)
    requires
        lines.len() > 0,
        more.len() <= 2,
    ensures
        joined(lines + more, sep) == joined(lines, sep) + (if more.len() == 0 {
            seq![]
        } else if more.len() == 1 {
            sep + more[0]
        } else {
            sep + more[0] + sep + more[1]
        }),
{
    if more.len() == 0 {
        assert(lines + more =~= lines);
        assert(joined(lines, sep) =~= joined(lines, sep) + seq![]);
    } else {
        let first = seq![more[0]];
        lemma_joined_parts(lines, more, more[0], sep);
        if more.len() == 1 {
            assert(more =~= first);
        } else {
            let second = seq![more[1]];
            assert(more =~= first + second);
            lemma_joined_parts(first, second, more[1], sep);
        }
        assert(joined(lines + more, sep) =~= joined(lines, sep) + (if more.len() == 1 {
            sep + more[0]
        } else {
            sep + more[0] + sep + more[1]
        }));
    }
}

/// A song is shown as its heading and then, each behind a line break, what else
/// there is to show.
pub proof fn lemma_shown_text(
    response: ShazamResponse,
    song: ShazamSong,
    context: Option<&ExtractionContext>,
)
    requires
        response.results.matches@.len() > 0,
        response.resources.shazam_songs@.contains_key(response.results.matches@[0].id@),
        response.resources.shazam_songs@[response.results.matches@[0].id@] == song,
    ensures
        response.display_text(context) == song.attributes.title@ + " \u{2014} "@
            + song.attributes.artist@ + (if has_known_genre(response.resources, song) {
            "\n"@ + ("Genres:   "@ + joined(genre_names(response.resources, song), ", "@))
        } else {
            seq![]
        }) + (if song.attributes.explicit {
            "\n"@ + "[Explicit]"@
        } else {
            seq![]
        }) + (match song.meta {
            Some(meta) => "\n"@ + duration_line(meta, context) + "\n"@ + match_line(meta, context),
            None => seq![],
        }) + (match song.attributes.web_url {
            Some(url) => "\n"@ + before_first(url@, '?'),
            None => seq![],
        }),
{
    lemma_shown_lines(response, song, context);
    let sep = "\n"@;
    let attrs = song.attributes;
    let genres = genre_names(response.resources, song);
    let heading = attrs.title@ + " \u{2014} "@ + attrs.artist@;
    let l0 = seq![heading];
    let g: Seq<Seq<char>> = if genres.len() > 0 {
        seq!["Genres:   "@ + joined(genres, ", "@)]
    } else {
        seq![]
    };
    let x: Seq<Seq<char>> = if attrs.explicit {
        seq!["[Explicit]"@]
    } else {
        seq![]
    };
    let m: Seq<Seq<char>> = match song.meta {
        Some(meta) => seq![duration_line(meta, context), match_line(meta, context)],
        None => seq![],
    };
    let u: Seq<Seq<char>> = match attrs.web_url {
        Some(url) => seq![before_first(url@, '?')],
        None => seq![],
    };
    assert(has_known_genre(response.resources, song) <==> genres.len() > 0) by {
        lemma_known_genres(response.resources, song);
    }
    lemma_joined_parts(seq![], seq![], heading, sep);
    lemma_lines_added(l0, g, sep);
    lemma_lines_added(l0 + g, x, sep);
    lemma_lines_added(l0 + g + x, m, sep);
    lemma_lines_added(l0 + g + x + m, u, sep);
    assert(song_lines(response.resources, song, context) == l0 + g + x + m + u);
}

/// Without a match, or without the song of the first match, nothing was found.
pub proof fn lemma_nothing_found(response: ShazamResponse, context: Option<&ExtractionContext>)
    requires
        response.results.matches@.len() > 0 ==> !response.resources.shazam_songs@.contains_key(
            response.results.matches@[0].id@,
        ),
    ensures
        response.display_text(context) == "No match found."@,
{
}

proof fn lemma_apart_behind_clock(
    head: Seq<char>,
    a: nat,
    tail_a: Seq<char>,
    b: nat,
    tail_b: Seq<char>,
)
    requires
        tail_a.len() > 0 ==> tail_a[0] == ' ',
        tail_b.len() > 0 ==> tail_b[0] == ' ',
        head + clock(a) + tail_a == head + clock(b) + tail_b,
    ensures
        a == b,
        tail_a == tail_b,
{
    let x = head + clock(a) + tail_a;
    let y = head + clock(b) + tail_b;
    let h = head.len() as int;
    let la = clock(a).len() as int;
    let lb = clock(b).len() as int;
    lemma_clock_layout(a);
    lemma_clock_layout(b);
    if la < lb {
        assert(y[h + la] == clock(b)[la]);
        assert(x[h + la] == tail_a[0]);
    }
    if lb < la {
        assert(x[h + lb] == clock(a)[lb]);
        assert(y[h + lb] == tail_b[0]);
    }
    assert(clock(a) =~= x.subrange(h, h + la));
    assert(clock(b) =~= y.subrange(h, h + lb));
    assert(tail_a =~= x.skip(h + la));
    assert(tail_b =~= y.skip(h + lb));
    lemma_clock_is_injective(a, b);
}

proof fn lemma_apart_inside(head: Seq<char>, a: nat, b: nat, tail: Seq<char>)
    requires
        head + clock(a) + tail == head + clock(b) + tail,
    ensures
        a == b,
{
    let x = head + clock(a) + tail;
    let y = head + clock(b) + tail;
    let h = head.len() as int;
    assert(x.len() == y.len());
    assert(clock(a) =~= x.subrange(h, h + clock(a).len()));
    assert(clock(b) =~= y.subrange(h, h + clock(b).len()));
    lemma_clock_is_injective(a, b);
}

/// Whether the lengths of song and file are more than five seconds apart.
pub open spec fn lengths_apart(meta: SongMeta, ctx: &ExtractionContext) -> bool {
    meta.duration > ctx.file_duration_ms / 1000 + 5 || meta.duration + 5 < ctx.file_duration_ms
        / 1000
}

/// Whether the places of the sample in song and file are more than five seconds
/// apart.
pub open spec fn places_apart(meta: SongMeta, ctx: &ExtractionContext) -> bool {
    meta.match_offset > ctx.sample_start_ms / 1000 + 5 || meta.match_offset + 5
        < ctx.sample_start_ms / 1000
}

/// The line on the length shows that of the song, and that of the file too
/// where they are more than five seconds apart. Each is a time that reads back
/// as the whole seconds of what it stands for.
pub proof fn lemma_duration_line_shows(meta: SongMeta, ctx: &ExtractionContext)
    ensures
        ({
            let song = clock(meta.duration as nat);
            let file = clock((ctx.file_duration_ms / 1000) as nat);
            &&& duration_line(meta, None) == "Duration: "@ + song
            &&& !lengths_apart(meta, ctx) ==> duration_line(meta, Some(ctx)) == "Duration: "@ + song
            &&& lengths_apart(meta, ctx) ==> duration_line(meta, Some(ctx)) == "Duration: "@ + song
                + " (song) vs "@ + file + " (file)"@
            &&& position_of(file) == Some(
                SamplePosition::StartMs((ctx.file_duration_ms / 1000 * 1000) as u64),
            )
            &&& meta.duration * 1000 <= 0xffff_ffff_ffff_ffff ==> position_of(song) == Some(
                SamplePosition::StartMs((meta.duration * 1000) as u64),
            )
        }),
{
    let song = clock(meta.duration as nat);
    let file = clock((ctx.file_duration_ms / 1000) as nat);
    assert(duration_line(meta, None) =~= "Duration: "@ + song);
    assert(!lengths_apart(meta, ctx) ==> duration_line(meta, Some(ctx)) =~= "Duration: "@ + song);
    assert(lengths_apart(meta, ctx) ==> duration_line(meta, Some(ctx)) =~= "Duration: "@ + song
        + " (song) vs "@ + file + " (file)"@);
    lemma_clock_reads_back((ctx.file_duration_ms / 1000) as nat);
    if meta.duration * 1000 <= 0xffff_ffff_ffff_ffff {
        lemma_clock_reads_back(meta.duration as nat);
    }
}

/// Equal lines on the length mean equal songs in length, and equal files in
/// whole seconds wherever the file is shown.
pub proof fn lemma_duration_lines_tell_apart(
    a: SongMeta,
    ctx_a: &ExtractionContext,
    b: SongMeta,
    ctx_b: &ExtractionContext,
)
    requires
        duration_line(a, Some(ctx_a)) == duration_line(b, Some(ctx_b)),
    ensures
        a.duration == b.duration,
        lengths_apart(a, ctx_a) == lengths_apart(b, ctx_b),
        lengths_apart(a, ctx_a) ==> ctx_a.file_duration_ms / 1000 == ctx_b.file_duration_ms / 1000,
{
    reveal_strlit(" (song) vs ");
    let between = " (song) vs "@;
    let end = " (file)"@;
    let file_a = (ctx_a.file_duration_ms / 1000) as nat;
    let file_b = (ctx_b.file_duration_ms / 1000) as nat;
    let tail_a = if lengths_apart(a, ctx_a) {
        between + clock(file_a) + end
    } else {
        seq![]
    };
    let tail_b = if lengths_apart(b, ctx_b) {
        between + clock(file_b) + end
    } else {
        seq![]
    };
    assert(duration_line(a, Some(ctx_a)) =~= "Duration: "@ + clock(a.duration as nat) + tail_a);
    assert(duration_line(b, Some(ctx_b)) =~= "Duration: "@ + clock(b.duration as nat) + tail_b);
    lemma_apart_behind_clock("Duration: "@, a.duration as nat, tail_a, b.duration as nat, tail_b);
    if lengths_apart(a, ctx_a) {
        assert(tail_a.len() > 0);
        assert(lengths_apart(b, ctx_b));
        lemma_apart_inside(between, file_a, file_b, end);
    } else {
        assert(tail_b.len() == 0);
    }
}

/// The line on the place shows where in the song the sample was found, and where
/// it lies in the file too where they are more than five seconds apart. Each is
/// a time that reads back as the whole seconds of what it stands for.
pub proof fn lemma_match_line_shows(meta: SongMeta, ctx: &ExtractionContext)
    ensures
        ({
            let song = clock(meta.match_offset as nat);
            let file = clock((ctx.sample_start_ms / 1000) as nat);
            &&& match_line(meta, None) == "Matched:  "@ + song + " into song"@
            &&& !places_apart(meta, ctx) ==> match_line(meta, Some(ctx)) == "Matched:  "@ + song
                + " into song"@
            &&& places_apart(meta, ctx) ==> match_line(meta, Some(ctx)) == "Matched:  "@ + song
                + " in song vs "@ + file + " in file"@
            &&& position_of(file) == Some(
                SamplePosition::StartMs((ctx.sample_start_ms / 1000 * 1000) as u64),
            )
            &&& meta.match_offset * 1000 <= 0xffff_ffff_ffff_ffff ==> position_of(song) == Some(
                SamplePosition::StartMs((meta.match_offset * 1000) as u64),
            )
        }),
{
    let song = clock(meta.match_offset as nat);
    let file = clock((ctx.sample_start_ms / 1000) as nat);
    assert(match_line(meta, None) =~= "Matched:  "@ + song + " into song"@);
    assert(!places_apart(meta, ctx) ==> match_line(meta, Some(ctx)) =~= "Matched:  "@ + song
        + " into song"@);
    assert(places_apart(meta, ctx) ==> match_line(meta, Some(ctx)) =~= "Matched:  "@ + song
        + " in song vs "@ + file + " in file"@);
    lemma_clock_reads_back((ctx.sample_start_ms / 1000) as nat);
    if meta.match_offset * 1000 <= 0xffff_ffff_ffff_ffff {
        lemma_clock_reads_back(meta.match_offset as nat);
    }
}

/// Equal lines on the place mean equal places in the song, and equal places in
/// the file in whole seconds wherever that is shown.
pub proof fn lemma_match_lines_tell_apart(
    a: SongMeta,
    ctx_a: &ExtractionContext,
    b: SongMeta,
    ctx_b: &ExtractionContext,
)
    requires
        match_line(a, Some(ctx_a)) == match_line(b, Some(ctx_b)),
    ensures
        a.match_offset == b.match_offset,
        places_apart(a, ctx_a) == places_apart(b, ctx_b),
        places_apart(a, ctx_a) ==> ctx_a.sample_start_ms / 1000 == ctx_b.sample_start_ms / 1000,
{
    reveal_strlit(" in song vs ");
    reveal_strlit(" into song");
    let between = " in song vs "@;
    let end = " in file"@;
    let file_a = (ctx_a.sample_start_ms / 1000) as nat;
    let file_b = (ctx_b.sample_start_ms / 1000) as nat;
    let tail_a = if places_apart(a, ctx_a) {
        between + clock(file_a) + end
    } else {
        " into song"@
    };
    let tail_b = if places_apart(b, ctx_b) {
        between + clock(file_b) + end
    } else {
        " into song"@
    };
    assert(match_line(a, Some(ctx_a)) =~= "Matched:  "@ + clock(a.match_offset as nat) + tail_a);
    assert(match_line(b, Some(ctx_b)) =~= "Matched:  "@ + clock(b.match_offset as nat) + tail_b);
    lemma_apart_behind_clock(
        "Matched:  "@,
        a.match_offset as nat,
        tail_a,
        b.match_offset as nat,
        tail_b,
    );
    assert(places_apart(a, ctx_a) <==> tail_a[3] == ' ');
    assert(places_apart(b, ctx_b) <==> tail_b[3] == ' ');
    if places_apart(a, ctx_a) {
        lemma_apart_inside(between, file_a, file_b, end);
    }
}

} // verus!
