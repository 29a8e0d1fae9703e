use vstd::prelude::*;
use crate::text::same_text;

verus! {

/// A racetrack and the path of its image.
#[derive(Clone, Debug)]
pub struct Track {
    pub name: String,
    pub image: String,
}

fn track(name: &str, image: &str) -> (r: Track)
    ensures
        r.name@ == name@,
        r.image@ == image@,
{
    Track { name: String::from_str(name), image: String::from_str(image) }
}

/// The tracks the browser offers, each with the path of its image.
pub fn track_table() -> (r: Vec<Track>)
    ensures
        r@.len() == 22,
        r@[0].name@ == "Abu Dhabi"@ && r@[0].image@ == "/tracks/abudhabi.svg"@,
        r@[1].name@ == "Australia"@ && r@[1].image@ == "/tracks/australia.svg"@,
        r@[2].name@ == "Austria"@ && r@[2].image@ == "/tracks/austria.svg"@,
        r@[3].name@ == "Azerbaijan"@ && r@[3].image@ == "/tracks/azerbaijan.svg"@,
        r@[4].name@ == "Bahrain"@ && r@[4].image@ == "/tracks/bahrain.svg"@,
        r@[5].name@ == "Belgium"@ && r@[5].image@ == "/tracks/belgium.svg"@,
        r@[6].name@ == "Brazil"@ && r@[6].image@ == "/tracks/brazil.svg"@,
        r@[7].name@ == "Canada"@ && r@[7].image@ == "/tracks/canada.svg"@,
        r@[8].name@ == "China"@ && r@[8].image@ == "/tracks/china.svg"@,
        r@[9].name@ == "France"@ && r@[9].image@ == "/tracks/france.svg"@,
        r@[10].name@ == "Great Britain"@ && r@[10].image@ == "/tracks/greatbritain.svg"@,
        r@[11].name@ == "Hungary"@ && r@[11].image@ == "/tracks/hungary.svg"@,
        r@[12].name@ == "Italy"@ && r@[12].image@ == "/tracks/italy.svg"@,
        r@[13].name@ == "Japan"@ && r@[13].image@ == "/tracks/japan.svg"@,
        r@[14].name@ == "Mexico"@ && r@[14].image@ == "/tracks/mexico.svg"@,
        r@[15].name@ == "Monaco"@ && r@[15].image@ == "/tracks/monaco.svg"@,
        r@[16].name@ == "Netherlands"@ && r@[16].image@ == "/tracks/netherlands.svg"@,
        r@[17].name@ == "Russia"@ && r@[17].image@ == "/tracks/russia.svg"@,
        r@[18].name@ == "Singapore"@ && r@[18].image@ == "/tracks/singapore.svg"@,
        r@[19].name@ == "Spain"@ && r@[19].image@ == "/tracks/spain.svg"@,
        r@[20].name@ == "Usa"@ && r@[20].image@ == "/tracks/usa.svg"@,
        r@[21].name@ == "Vietnam"@ && r@[21].image@ == "/tracks/vietnam.svg"@,
{
    let mut t: Vec<Track> = Vec::new();
    t.push(track("Abu Dhabi", "/tracks/abudhabi.svg"));
    t.push(track("Australia", "/tracks/australia.svg"));
    t.push(track("Austria", "/tracks/austria.svg"));
    t.push(track("Azerbaijan", "/tracks/azerbaijan.svg"));
    t.push(track("Bahrain", "/tracks/bahrain.svg"));
    t.push(track("Belgium", "/tracks/belgium.svg"));
    t.push(track("Brazil", "/tracks/brazil.svg"));
    t.push(track("Canada", "/tracks/canada.svg"));
    t.push(track("China", "/tracks/china.svg"));
    t.push(track("France", "/tracks/france.svg"));
    t.push(track("Great Britain", "/tracks/greatbritain.svg"));
    t.push(track("Hungary", "/tracks/hungary.svg"));
    t.push(track("Italy", "/tracks/italy.svg"));
    t.push(track("Japan", "/tracks/japan.svg"));
    t.push(track("Mexico", "/tracks/mexico.svg"));
    t.push(track("Monaco", "/tracks/monaco.svg"));
    t.push(track("Netherlands", "/tracks/netherlands.svg"));
    t.push(track("Russia", "/tracks/russia.svg"));
    t.push(track("Singapore", "/tracks/singapore.svg"));
    t.push(track("Spain", "/tracks/spain.svg"));
    t.push(track("Usa", "/tracks/usa.svg"));
    t.push(track("Vietnam", "/tracks/vietnam.svg"));
    t
}

/// The name and image shown for a selected track: those of the last track of
/// that name, or two empty strings when there is none.
pub open spec fn selected(tracks: Seq<Track>, name: Seq<char>) -> (Seq<char>, Seq<char>)
    decreases tracks.len(),
{
    if tracks.len() == 0 {
        (Seq::empty(), Seq::empty())
    } else if tracks.last().name@ == name {
        (tracks.last().name@, tracks.last().image@)
    } else {
        selected(tracks.drop_last(), name)
    }
}

/// The track panel for a selection: an unknown name gives an empty panel
/// rather than an error.
pub fn select_track(tracks: &Vec<Track>, name: &str) -> (r: (String, String))
    ensures
        (r.0@, r.1@) == selected(tracks@, name@),
{
    let mut i: usize = tracks.len();
    assert(tracks@.take(i as int) =~= tracks@);
    while i > 0
        invariant
            i <= tracks@.len(),
            selected(tracks@, name@) == selected(tracks@.take(i as int), name@),
        decreases i,
    {
        assert(tracks@.take(i as int).drop_last() =~= tracks@.take(i - 1));
        assert(tracks@.take(i as int).last() == tracks@[i - 1]);
        let t = &tracks[i - 1];
        if same_text(t.name.as_str(), name) {
            return (t.name.clone(), t.image.clone());
        }
        i = i - 1;
    }
    assert(tracks@.take(0) =~= Seq::<Track>::empty());
    (String::new(), String::new())
}

/// A name that no track has gives an empty panel.
pub proof fn lemma_unknown_track_is_blank(tracks: Seq<Track>, name: Seq<char>)
    requires
        forall|i: int| 0 <= i < tracks.len() ==> (#[trigger] tracks[i]).name@ != name,
    ensures
        selected(tracks, name) == (Seq::<char>::empty(), Seq::<char>::empty()),
    decreases tracks.len(),
{
    if tracks.len() > 0 {
        let d = tracks.drop_last();
        assert(tracks[tracks.len() - 1].name@ != name);
        assert forall|i: int| 0 <= i < d.len() implies (#[trigger] d[i]).name@ != name by {
            assert(tracks[i].name@ != name);
        }
        lemma_unknown_track_is_blank(d, name);
    }
}

} // verus!
