use ifa::report::{clean_name, is_scenario_file, report_file_name};
use ifa::fixtures::{
    check_http_status, fixture_record, fixture_records, outcome_of, record_from_fixture,
    records_from_response, FetchError, FixtureItem, ProviderError,
};
use ifa::league::{
    draw_probability_per_mille, get_league_profile, home_advantage_per_mille,
    league_profile_of_lowercase, offensive_boost_percent,
};

#[test]
fn league_profiles_ignore_case() {
    assert_eq!(get_league_profile("Serie A"), "Equilibrada");
    assert_eq!(get_league_profile("SERIE B"), "Muy Táctica (alta prob. empate)");
    assert_eq!(get_league_profile("La Liga"), "Ofensiva");
    assert_eq!(get_league_profile("Eredivisie"), "Muy Ofensiva (alta media de goles)");
    assert_eq!(get_league_profile("MLS"), "Estándar");
    assert_eq!(league_profile_of_lowercase("Serie A"), "Estándar");
}

#[test]
fn league_and_team_modulators() {
    assert_eq!(home_advantage_per_mille("Bundesliga"), 15);
    assert_eq!(home_advantage_per_mille("Premier League"), 12);
    assert_eq!(home_advantage_per_mille("Scottish Premier"), 8);
    assert_eq!(home_advantage_per_mille("A-League"), 10);
    assert_eq!(draw_probability_per_mille("Serie B"), 331);
    assert_eq!(draw_probability_per_mille("2. Bundesliga"), 294);
    assert_eq!(draw_probability_per_mille("Eredivisie"), 231);
    assert_eq!(draw_probability_per_mille("Unknown"), 267);
    assert_eq!(offensive_boost_percent("Barcelona"), 115);
    assert_eq!(offensive_boost_percent("PSG"), 112);
    assert_eq!(offensive_boost_percent("Feyenoord"), 104);
    assert_eq!(offensive_boost_percent("Getafe"), 100);
}

fn item(home: Option<&str>, away: Option<&str>) -> FixtureItem {
    FixtureItem {
        id: Some(1234),
        home_team: home.map(|s| s.to_string()),
        away_team: away.map(|s| s.to_string()),
        home_score: Some(2),
        away_score: Some(1),
        timestamp: None,
        time: None,
        league_name: Some("Liga MX".to_string()),
        league_season: None,
    }
}

#[test]
fn outcomes_follow_scores() {
    assert_eq!(outcome_of(Some(2), Some(1)).as_deref(), Some("home_win"));
    assert_eq!(outcome_of(Some(0), Some(3)).as_deref(), Some("away_win"));
    assert_eq!(outcome_of(Some(1), Some(1)).as_deref(), Some("draw"));
    assert_eq!(outcome_of(None, Some(1)), None);
}

#[test]
fn fixtures_without_teams_are_skipped() {
    assert!(fixture_record(&item(None, Some("B")), 2024).is_none());
    assert!(fixture_record(&item(Some("Unknown"), Some("B")), 2024).is_none());
    assert!(fixture_record(&item(Some("A"), Some("B")), 2024).is_some());
}

#[test]
fn record_fields_and_defaults() {
    let record = fixture_record(&item(Some("A"), Some("B")), 2024).unwrap();
    assert_eq!(record.external_id, 1234);
    assert_eq!(record.provider, "creativesdev");
    assert_eq!(record.competition, "Liga MX");
    assert_eq!(record.season, 2024);
    assert_eq!(record.match_date, "1970-01-01T00:00:00Z");
    assert_eq!(record.home_team, "A");
    assert_eq!(record.away_team, "B");
    assert_eq!(record.home_score, Some(2));
    assert_eq!(record.away_score, Some(1));
    assert_eq!(record.result.as_deref(), Some("home_win"));

    let mut bare = item(Some("A"), Some("B"));
    bare.id = None;
    bare.league_name = None;
    bare.league_season = Some(2019);
    bare.home_score = None;
    bare.time = Some("2020-05-01T18:00:00Z".to_string());
    let record = fixture_record(&bare, 2024).unwrap();
    assert_eq!(record.external_id, 0);
    assert_eq!(record.competition, "Unknown League");
    assert_eq!(record.season, 2019);
    assert_eq!(record.match_date, "2020-05-01T18:00:00Z");
    assert_eq!(record.result, None);
}

#[test]
fn timestamps_render_as_rfc3339() {
    let mut timed = item(Some("A"), Some("B"));
    timed.timestamp = Some(0);
    timed.time = Some("ignored".to_string());
    assert_eq!(fixture_record(&timed, 2024).unwrap().match_date, "1970-01-01T00:00:00+00:00");
    timed.timestamp = Some(86_400 + 3_661);
    assert_eq!(fixture_record(&timed, 2024).unwrap().match_date, "1970-01-02T01:01:01+00:00");
    timed.timestamp = Some(i64::MAX);
    assert_eq!(fixture_record(&timed, 2024).unwrap().match_date, "1970-01-01T00:00:00Z");
}

#[test]
fn record_uses_the_given_rendering() {
    let mut timed = item(Some("A"), Some("B"));
    timed.timestamp = Some(5);
    let record = record_from_fixture(&timed, 2024, Some("then".to_string())).unwrap();
    assert_eq!(record.match_date, "then");
    let record = record_from_fixture(&timed, 2024, None).unwrap();
    assert_eq!(record.match_date, "1970-01-01T00:00:00Z");
}

#[test]
fn scores_are_narrowed_to_32_bits() {
    let mut big = item(Some("A"), Some("B"));
    big.home_score = Some((1i64 << 32) + 3);
    big.league_season = Some((1i64 << 32) + 2020);
    let record = fixture_record(&big, 2024).unwrap();
    assert_eq!(record.home_score, Some(3));
    assert_eq!(record.season, 2020);
    assert_eq!(record.result.as_deref(), Some("home_win"));
}

#[test]
fn records_keep_order_and_skip_unknown_teams() {
    let items = vec![
        item(Some("A"), Some("B")),
        item(None, Some("C")),
        item(Some("D"), Some("E")),
    ];
    let records = fixture_records(&items, 2023);
    assert_eq!(records.len(), 2);
    assert_eq!(records[0].home_team, "A");
    assert_eq!(records[1].home_team, "D");
    assert_eq!(records[1].season, 2023);
}

#[test]
fn provider_error_messages() {
    assert_eq!(ProviderError::NetworkError("timeout".to_string()).message(), "Error de red: timeout");
    assert_eq!(ProviderError::AuthError.message(), "Error de autenticación");
    assert_eq!(ProviderError::RateLimitExceeded.message(), "Rate limit excedido");
    assert_eq!(ProviderError::ParseError("bad json".to_string()).message(), "Error de parseo: bad json");
}

#[test]
fn report_file_names_are_cleaned() {
    assert_eq!(clean_name("Bodø/Glimt"), "Bodo_Glimt");
    assert_eq!(clean_name("Ølstykke Ñandú's-Forças\\B"), "Olstykke_Ñandús_Forcas_B");
    assert_eq!(clean_name(""), "");
    assert_eq!(
        report_file_name("Atlético Madrid", "Nîmes/Olympique"),
        "IFA_Report_Atlético_Madrid_vs_Nîmes_Olympique.md"
    );
}

#[test]
fn scenario_files_are_recognised() {
    assert!(is_scenario_file("scenario_01.json"));
    assert!(is_scenario_file("scenario_.json"));
    assert!(!is_scenario_file("scenario_01.json.bak"));
    assert!(!is_scenario_file("my_scenario_01.json"));
    assert!(!is_scenario_file("scenario.json"));
    assert!(!is_scenario_file(".json"));
    assert!(is_scenario_file("scenario_ñ.json"));
}

#[test]
fn http_statuses_and_missing_response() {
    assert_eq!(check_http_status(200), Ok(()));
    assert_eq!(check_http_status(299), Ok(()));
    assert_eq!(check_http_status(199), Err(FetchError::HttpStatus(199)));
    assert_eq!(check_http_status(404), Err(FetchError::HttpStatus(404)));
    assert!(matches!(records_from_response(None, 2024), Err(FetchError::MissingResponseArray)));
    let records = records_from_response(Some(vec![item(Some("A"), Some("B")), item(None, None)]), 2024).unwrap();
    assert_eq!(records.len(), 1);
    assert_eq!(records[0].away_team, "B");
}
