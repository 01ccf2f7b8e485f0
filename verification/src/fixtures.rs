//! Match records built from the fixtures that the football-data provider
//! returns, and the provider's errors.
use vstd::prelude::*;
use vstd::string::StringExecFns;
use crate::text::str_equal;

verus! {

/// The RFC 3339 rendering (UTC, `+00:00` offset) of a Unix timestamp in
/// seconds, or `None` when the timestamp lies outside the representable
/// dates, as chrono computes it.
pub uninterp spec fn rfc3339_of_timestamp(seconds: i64) -> Option<Seq<char>>;

/// Calls `chrono::DateTime::from_timestamp(seconds, 0)` and renders the date
/// with `to_rfc3339`. The contract claims only that the result is the named
/// `rfc3339_of_timestamp(seconds)`; the calendar computation and the text
/// layout are not written out here.
#[verifier::external_body]
fn render_timestamp(seconds: i64) -> (r: Option<String>)
    ensures
        rfc3339_of_timestamp(seconds) == (match r {
            Some(s) => Some(s@),
            None => None::<Seq<char>>,
        }),
{
    match chrono::DateTime::from_timestamp(seconds, 0) {
        Some(date) => Some(date.to_rfc3339()),
        None => None,
    }
}

/// The fields of one fixture of the provider's response, as plain values;
/// `None` where the response lacks the field or holds another type there.
pub struct FixtureItem {
    pub id: Option<i64>,
    pub home_team: Option<String>,
    pub away_team: Option<String>,
    pub home_score: Option<i64>,
    pub away_score: Option<i64>,
    pub timestamp: Option<i64>,
    pub time: Option<String>,
    pub league_name: Option<String>,
    pub league_season: Option<i64>,
}

pub struct FixtureItemView {
    pub id: Option<i64>,
    pub home_team: Option<Seq<char>>,
    pub away_team: Option<Seq<char>>,
    pub home_score: Option<i64>,
    pub away_score: Option<i64>,
    pub timestamp: Option<i64>,
    pub time: Option<Seq<char>>,
    pub league_name: Option<Seq<char>>,
    pub league_season: Option<i64>,
}

pub open spec fn string_option_view(o: Option<String>) -> Option<Seq<char>> {
    match o {
        Some(s) => Some(s@),
        None => None,
    }
}

impl View for FixtureItem {
    type V = FixtureItemView;

    open spec fn view(&self) -> FixtureItemView {
        FixtureItemView {
            id: self.id,
            home_team: string_option_view(self.home_team),
            away_team: string_option_view(self.away_team),
            home_score: self.home_score,
            away_score: self.away_score,
            timestamp: self.timestamp,
            time: string_option_view(self.time),
            league_name: string_option_view(self.league_name),
            league_season: self.league_season,
        }
    }
}

/// A match record made from one fixture.
pub struct FixtureRecord {
    pub external_id: i64,
    pub provider: String,
    pub competition: String,
    pub season: i32,
    pub match_date: String,
    pub home_team: String,
    pub away_team: String,
    pub home_score: Option<i32>,
    pub away_score: Option<i32>,
    pub result: Option<String>,
}

pub struct FixtureRecordView {
    pub external_id: i64,
    pub provider: Seq<char>,
    pub competition: Seq<char>,
    pub season: i32,
    pub match_date: Seq<char>,
    pub home_team: Seq<char>,
    pub away_team: Seq<char>,
    pub home_score: Option<i32>,
    pub away_score: Option<i32>,
    pub result: Option<Seq<char>>,
}

impl View for FixtureRecord {
    type V = FixtureRecordView;

    open spec fn view(&self) -> FixtureRecordView {
        FixtureRecordView {
            external_id: self.external_id,
            provider: self.provider@,
            competition: self.competition@,
            season: self.season,
            match_date: self.match_date@,
            home_team: self.home_team@,
            away_team: self.away_team@,
            home_score: self.home_score,
            away_score: self.away_score,
            result: string_option_view(self.result),
        }
    }
}

pub open spec fn text_or(o: Option<Seq<char>>, default: Seq<char>) -> Seq<char> {
    match o {
        Some(s) => s,
        None => default,
    }
}

/// A score narrowed to `i32` (the low 32 bits, as `as i32` keeps them).
pub open spec fn narrow_score(s: Option<i64>) -> Option<i32> {
    match s {
        Some(v) => Some(v as i32),
        None => None,
    }
}

/// The outcome of a match with both scores known.
pub open spec fn match_outcome(home: Option<i32>, away: Option<i32>) -> Option<Seq<char>> {
    match (home, away) {
        (Some(h), Some(a)) => if h > a {
            Some("home_win"@)
        } else if a > h {
            Some("away_win"@)
        } else {
            Some("draw"@)
        },
        _ => None,
    }
}

/// The date used when the fixture gives none.
pub open spec fn epoch_text() -> Seq<char> {
    "1970-01-01T00:00:00Z"@
}

/// The record of a fixture whose timestamp (if it has one) renders as
/// `rendered`; `None` when a team name is missing or is "Unknown".
pub open spec fn record_of_fixture(
    item: FixtureItemView,
    season: i32,
    rendered: Option<Seq<char>>,
) -> Option<FixtureRecordView> {
    let home_team = text_or(item.home_team, "Unknown"@);
    let away_team = text_or(item.away_team, "Unknown"@);
    if home_team == "Unknown"@ || away_team == "Unknown"@ {
        None
    } else {
        let home_score = narrow_score(item.home_score);
        let away_score = narrow_score(item.away_score);
        Some(
            FixtureRecordView {
                external_id: match item.id {
                    Some(v) => v,
                    None => 0,
                },
                provider: "creativesdev"@,
                competition: text_or(item.league_name, "Unknown League"@),
                season: match item.league_season {
                    Some(v) => v as i32,
                    None => season,
                },
                match_date: if item.timestamp is Some {
                    text_or(rendered, epoch_text())
                } else {
                    text_or(item.time, epoch_text())
                },
                home_team,
                away_team,
                home_score,
                away_score,
                result: match_outcome(home_score, away_score),
            },
        )
    }
}

/// The rendering of a fixture's timestamp, if it has one.
pub open spec fn fixture_rendering(item: FixtureItemView) -> Option<Seq<char>> {
    match item.timestamp {
        Some(ts) => rfc3339_of_timestamp(ts),
        None => None,
    }
}

/// The records of a list of fixtures, skipping those without both teams.
pub open spec fn records_of_fixtures(items: Seq<FixtureItemView>, season: i32) -> Seq<
    FixtureRecordView,
>
    decreases items.len(),
{
    if items.len() == 0 {
        Seq::empty()
    } else {
        let rest = records_of_fixtures(items.drop_last(), season);
        match record_of_fixture(items.last(), season, fixture_rendering(items.last())) {
            Some(r) => rest.push(r),
            None => rest,
        }
    }
}

/// A fixture gives a record exactly when both team names are present and
/// neither is "Unknown"; the record keeps both names as they are, and its
/// result follows the two (narrowed) scores: a home win when the home score
/// is higher, an away win when the away score is higher, a draw when they
/// are equal, and no result when a score is missing.
pub proof fn law_record_needs_both_teams(item: FixtureItemView, season: i32, rendered: Option<Seq<char>>)
    ensures
        record_of_fixture(item, season, rendered) is Some <==> (item.home_team is Some
            && item.home_team->0 != "Unknown"@ && item.away_team is Some && item.away_team->0
            != "Unknown"@),
        record_of_fixture(item, season, rendered) matches Some(r) ==> {
            &&& r.home_team == item.home_team->0
            &&& r.away_team == item.away_team->0
            &&& r.home_team != "Unknown"@
            &&& r.away_team != "Unknown"@
            &&& (r.result is None <==> (item.home_score is None || item.away_score is None))
            &&& (r.result == Some("home_win"@) <==> (item.home_score is Some && item.away_score
                is Some && (item.home_score->0 as i32) > (item.away_score->0 as i32)))
            &&& (r.result == Some("away_win"@) <==> (item.home_score is Some && item.away_score
                is Some && (item.home_score->0 as i32) < (item.away_score->0 as i32)))
            &&& (r.result == Some("draw"@) <==> (item.home_score is Some && item.away_score is Some
                && (item.home_score->0 as i32) == (item.away_score->0 as i32)))
        },
{
    reveal_strlit("home_win");
    reveal_strlit("away_win");
    reveal_strlit("draw");
    assert("home_win"@[0] != "away_win"@[0]);
    assert("home_win"@ != "draw"@);
    assert("away_win"@ != "draw"@);
}

/// The other fields of a record: the provider is "creativesdev"; the id, the
/// competition and the season come from the fixture, or default to 0,
/// "Unknown League" and the season asked for; each score is the fixture's
/// score narrowed to `i32`; the date is the rendered timestamp when the
/// fixture has one, else its time text, and "1970-01-01T00:00:00Z" when
/// neither gives a date.
pub proof fn law_record_fields_follow_fixture(
    item: FixtureItemView,
    season: i32,
    rendered: Option<Seq<char>>,
)
    ensures
        record_of_fixture(item, season, rendered) matches Some(r) ==> {
            &&& r.provider == "creativesdev"@
            &&& r.external_id == (if item.id is Some { item.id->0 } else { 0 })
            &&& r.competition == (if item.league_name is Some {
                item.league_name->0
            } else {
                "Unknown League"@
            })
            &&& r.season == (if item.league_season is Some {
                item.league_season->0 as i32
            } else {
                season
            })
            &&& r.home_score == (if item.home_score is Some {
                Some(item.home_score->0 as i32)
            } else {
                None
            })
            &&& r.away_score == (if item.away_score is Some {
                Some(item.away_score->0 as i32)
            } else {
                None
            })
            &&& (item.timestamp is Some && rendered is Some) ==> r.match_date == rendered->0
            &&& (item.timestamp is None && item.time is Some) ==> r.match_date == item.time->0
            &&& ((item.timestamp is Some && rendered is None) || (item.timestamp is None
                && item.time is None)) ==> r.match_date == "1970-01-01T00:00:00Z"@
        },
{
}

/// A fixture with both teams named (and neither "Unknown").
pub open spec fn has_both_teams(item: FixtureItemView) -> bool {
    item.home_team is Some && item.home_team->0 != "Unknown"@ && item.away_team is Some
        && item.away_team->0 != "Unknown"@
}

/// The records of a list of fixtures are never more than the fixtures, never
/// name an "Unknown" team, and, when every fixture has both teams, are one
/// per fixture in the same order, with the teams of that fixture.
pub proof fn law_records_follow_fixtures(items: Seq<FixtureItemView>, season: i32)
    ensures
        records_of_fixtures(items, season).len() <= items.len(),
        forall|i: int|
            0 <= i < records_of_fixtures(items, season).len() ==> (#[trigger] records_of_fixtures(
                items,
                season,
            )[i]).home_team != "Unknown"@ && records_of_fixtures(items, season)[i].away_team
                != "Unknown"@,
        (forall|i: int| 0 <= i < items.len() ==> has_both_teams(#[trigger] items[i])) ==> {
            &&& records_of_fixtures(items, season).len() == items.len()
            &&& forall|i: int|
                0 <= i < items.len() ==> (#[trigger] records_of_fixtures(items, season)[i]).home_team
                    == items[i].home_team->0 && records_of_fixtures(items, season)[i].away_team
                    == items[i].away_team->0
        },
    decreases items.len(),
{
    if items.len() > 0 {
        let init = items.drop_last();
        law_records_follow_fixtures(init, season);
        law_record_needs_both_teams(items.last(), season, fixture_rendering(items.last()));
        if forall|i: int| 0 <= i < items.len() ==> has_both_teams(#[trigger] items[i]) {
            assert(has_both_teams(items[items.len() - 1]));
            assert forall|i: int| 0 <= i < init.len() implies has_both_teams(#[trigger] init[i]) by {
                assert(init[i] == items[i]);
            }
        }
    }
}

pub open spec fn record_option_view(r: Option<FixtureRecord>) -> Option<FixtureRecordView> {
    match r {
        Some(rec) => Some(rec@),
        None => None,
    }
}

fn text_or_default<'a>(o: &'a Option<String>, default: &'a str) -> (r: &'a str)
    ensures
        r@ == text_or(string_option_view(*o), default@),
{
    match o {
        Some(s) => s.as_str(),
        None => default,
    }
}

fn narrow(s: Option<i64>) -> (r: Option<i32>)
    ensures
        r == narrow_score(s),
{
    match s {
        Some(v) => Some(v as i32),
        None => None,
    }
}

/// "home_win", "away_win" or "draw" when both scores are known.
pub fn outcome_of(home: Option<i32>, away: Option<i32>) -> (r: Option<String>)
    ensures
        string_option_view(r) == match_outcome(home, away),
{
    match (home, away) {
        (Some(h), Some(a)) => {
            if h > a {
                Some("home_win".to_owned())
            } else if a > h {
                Some("away_win".to_owned())
            } else {
                Some("draw".to_owned())
            }
        },
        _ => None,
    }
}

/// The record of `item`, given the rendering of its timestamp.
pub fn record_from_fixture(item: &FixtureItem, season: i32, rendered: Option<String>) -> (r:
    Option<FixtureRecord>)
    ensures
        record_option_view(r) == record_of_fixture(item@, season, string_option_view(rendered)),
{
    let home_team = text_or_default(&item.home_team, "Unknown");
    let away_team = text_or_default(&item.away_team, "Unknown");
    if str_equal(home_team, "Unknown") || str_equal(away_team, "Unknown") {
        return None;
    }
    let home_score = narrow(item.home_score);
    let away_score = narrow(item.away_score);
    let result = outcome_of(home_score, away_score);
    let external_id = match item.id {
        Some(v) => v,
        None => 0,
    };
    let match_date = match item.timestamp {
        Some(_) => text_or_default(&rendered, "1970-01-01T00:00:00Z").to_owned(),
        None => text_or_default(&item.time, "1970-01-01T00:00:00Z").to_owned(),
    };
    let competition = text_or_default(&item.league_name, "Unknown League").to_owned();
    let record_season = match item.league_season {
        Some(v) => v as i32,
        None => season,
    };
    let record = FixtureRecord {
        external_id,
        provider: "creativesdev".to_owned(),
        competition,
        season: record_season,
        match_date,
        home_team: home_team.to_owned(),
        away_team: away_team.to_owned(),
        home_score,
        away_score,
        result,
    };
    Some(record)
}

/// The record of one fixture; its date is the RFC 3339 rendering of its
/// timestamp when it has one.
pub fn fixture_record(item: &FixtureItem, season: i32) -> (r: Option<FixtureRecord>)
    ensures
        record_option_view(r) == record_of_fixture(item@, season, fixture_rendering(item@)),
{
    let rendered = match item.timestamp {
        Some(ts) => render_timestamp(ts),
        None => None,
    };
    record_from_fixture(item, season, rendered)
}

/// The records of the fixtures of a response, in order, skipping fixtures
/// that lack a team name.
pub fn fixture_records(items: &Vec<FixtureItem>, season: i32) -> (r: Vec<FixtureRecord>)
    ensures
        r@.map_values(|rec: FixtureRecord| rec@) == records_of_fixtures(
            items@.map_values(|it: FixtureItem| it@),
            season,
        ),
{
    let mut records: Vec<FixtureRecord> = Vec::new();
    let mut i: usize = 0;
    while i < items.len()
        invariant
            i <= items@.len(),
            records@.map_values(|rec: FixtureRecord| rec@) == records_of_fixtures(
                items@.map_values(|it: FixtureItem| it@).take(i as int),
                season,
            ),
        decreases items@.len() - i,
    {
        let ghost views = items@.map_values(|it: FixtureItem| it@);
        proof {
            assert(views.take(i + 1).drop_last() =~= views.take(i as int));
            assert(views.take(i + 1).last() == items@[i as int]@);
        }
        let ghost before = records@.map_values(|rec: FixtureRecord| rec@);
        match fixture_record(&items[i], season) {
            Some(record) => {
                records.push(record);
                proof {
                    assert(records@.map_values(|rec: FixtureRecord| rec@) =~= before.push(record@));
                }
            },
            None => {},
        }
        i = i + 1;
    }
    proof {
        assert(items@.map_values(|it: FixtureItem| it@).take(items@.len() as int) =~= items@.map_values(
            |it: FixtureItem| it@,
        ));
    }
    records
}

/// Why a fixtures request gave no records.
#[derive(Debug, Clone, Copy, PartialEq, Eq, Structural)]
pub enum FetchError {
    /// The response status was not a success (200 to 299).
    HttpStatus(u16),
    /// The response body had no `response` array.
    MissingResponseArray,
}

/// Accepts the success statuses, 200 to 299.
pub fn check_http_status(status: u16) -> (r: Result<(), FetchError>)
    ensures
        r is Ok <==> 200 <= status <= 299,
        r is Err ==> r == Err::<(), FetchError>(FetchError::HttpStatus(status)),
{
    if 200 <= status && status <= 299 {
        Ok(())
    } else {
        Err(FetchError::HttpStatus(status))
    }
}

/// The records of a response whose `response` array held `items`, or the
/// error for a response without that array.
pub fn records_from_response(items: Option<Vec<FixtureItem>>, season: i32) -> (r: Result<
    Vec<FixtureRecord>,
    FetchError,
>)
    ensures
        items is None <==> r is Err,
        r is Err ==> r == Err::<Vec<FixtureRecord>, FetchError>(FetchError::MissingResponseArray),
        r matches Ok(records) ==> records@.map_values(|rec: FixtureRecord| rec@)
            == records_of_fixtures(items->0@.map_values(|it: FixtureItem| it@), season),
{
    match items {
        Some(list) => Ok(fixture_records(&list, season)),
        None => Err(FetchError::MissingResponseArray),
    }
}

/// Errors of the football-data provider.
#[derive(Debug)]
pub enum ProviderError {
    NetworkError(String),
    AuthError,
    RateLimitExceeded,
    ParseError(String),
}

impl ProviderError {
    /// The text that describes the error.
    pub open spec fn message_view(&self) -> Seq<char> {
        match self {
            ProviderError::NetworkError(detail) => "Error de red: "@ + detail@,
            ProviderError::AuthError => "Error de autenticación"@,
            ProviderError::RateLimitExceeded => "Rate limit excedido"@,
            ProviderError::ParseError(detail) => "Error de parseo: "@ + detail@,
        }
    }

    pub fn message(&self) -> (r: String)
        ensures
            r@ == self.message_view(),
    {
        match self {
            ProviderError::NetworkError(detail) => {
                let mut text = "Error de red: ".to_owned();
                text.append(detail.as_str());
                text
            },
            ProviderError::AuthError => "Error de autenticación".to_owned(),
            ProviderError::RateLimitExceeded => "Rate limit excedido".to_owned(),
            ProviderError::ParseError(detail) => {
                let mut text = "Error de parseo: ".to_owned();
                text.append(detail.as_str());
                text
            },
        }
    }
}

} // verus!
