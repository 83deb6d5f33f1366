use must::bootstrap::Bootstrap;
use must::json::{Json, JsonObject};
use must::strand::{LogicInComm, LogicOutComm, Ribosome, StrandKeyMap};

fn expect_fit(action: &LogicOutComm) -> String {
    match action {
        LogicOutComm::DoFit(key) => key.clone(),
        LogicOutComm::LogicErr(_) => panic!("unexpected logic error"),
        LogicOutComm::GetArgStr(arg_key) => panic!("unexpected arg request {}", arg_key),
        LogicOutComm::EndOfStrand => panic!("unexpected end of strand"),
    }
}

#[test]
fn various() {
    // Set up an arg bank
    let mut arg_bank = JsonObject::new();
    arg_bank.insert("some_arg_key".to_string(), Json::String("ants_are".to_string()));
    let (rib, action) = Ribosome::connect("o88KanesoJ6J19uN".to_string());
    assert!(expect_fit(&action) == "Fit 1");
    let (rib, action) = rib.on_fit_reply(LogicInComm::NextOk);
    let action = action.expect("the walk goes on");
    assert!(expect_fit(&action) == "Fit 2");
    let (rib, action) = rib.on_fit_reply(LogicInComm::NextOk);
    let action = action.expect("the walk goes on");
    let value = match action {
        LogicOutComm::GetArgStr(arg_key) => match arg_bank.get(&arg_key) {
            Some(Json::String(s)) => Some(s.clone()),
            Some(_) => panic!("the arg is a string"),
            None => None,
        },
        _ => panic!("the walk asks for an arg"),
    };
    let (rib, action) = rib.on_arg(value);
    assert!(expect_fit(&action) == Bootstrap::doc_slice_prep_key());
    let (rib, action) = rib.on_fit_reply(LogicInComm::NextErr);
    let action = action.expect("the walk goes on");
    // the first fit in the error strand
    assert!(expect_fit(&action) == Bootstrap::err_fit_key());
    let (_rib, action) = rib.on_fit_reply(LogicInComm::NextOk);
    match action.expect("the walk goes on") {
        LogicOutComm::EndOfStrand => {},
        _ => panic!("the error strand ends after the error fit"),
    }
}

#[test]
fn ribosome_missing_arg_is_a_logic_error() {
    let (rib, action) = Ribosome::connect(Bootstrap::must_start_strand());
    match action {
        LogicOutComm::GetArgStr(k) => assert_eq!(k, "spec_key"),
        _ => panic!("the start strand asks for the spec key"),
    }
    let (rib, action) = rib.on_arg(None);
    assert!(!rib.awaits_arg() && !rib.awaits_fit());
    match action {
        LogicOutComm::LogicErr(err) => {
            assert_eq!(err.get(&"arg_name".to_string()).map(|j| matches!(j, Json::String(s) if s == "spec_key")), Some(true));
            assert_eq!(err.get(&"spec_key".to_string()).map(|j| matches!(j, Json::String(s) if s == "euG3S9MfQQmlRe6B")), Some(true));
            assert_eq!(err.get(&"line_key".to_string()).map(|j| matches!(j, Json::String(s) if s == "strand.rs")), Some(true));
        },
        _ => panic!("a missing arg ends the walk in a logic error"),
    }
}

#[test]
fn ribosome_start_strand_maps_add_doc() {
    let (rib, _) = Ribosome::connect(Bootstrap::must_start_strand());
    let (rib, action) = rib.on_arg(Some(Bootstrap::spec_add_doc_key()));
    assert!(expect_fit(&action) == Bootstrap::doc_slice_prep_key());
    let (_, action) = rib.on_fit_reply(LogicInComm::NextOk);
    assert!(expect_fit(&action.unwrap()) == Bootstrap::file_append_slice_key());
    // any other spec key goes to the error strand
    let (rib, _) = Ribosome::connect(Bootstrap::must_start_strand());
    let (_, action) = rib.on_arg(Some("something else".to_string()));
    assert!(expect_fit(&action) == Bootstrap::err_fit_key());
}

#[test]
fn ribosome_next_end_stops_silently() {
    let (rib, _) = Ribosome::connect("o88KanesoJ6J19uN".to_string());
    let (rib, action) = rib.on_fit_reply(LogicInComm::NextEnd);
    assert!(action.is_none());
    assert!(!rib.awaits_fit());
}

#[test]
fn unknown_strand_is_empty() {
    let (_, action) = Ribosome::connect("no such strand".to_string());
    assert!(matches!(action, LogicOutComm::EndOfStrand));
    assert_eq!(Ribosome::get_strand("no such strand".to_string()).len(), 0);
}

#[test]
fn strand_key_map_first_match_wins() {
    let m = StrandKeyMap {
        mapped_strands: vec![
            ("a".to_string(), "one".to_string()),
            ("a".to_string(), "two".to_string()),
            ("b".to_string(), "three".to_string()),
        ],
        no_match_strand_key: "none".to_string(),
    };
    assert_eq!(m.get_strand_key("a".to_string()), "one");
    assert_eq!(m.get_strand_key("b".to_string()), "three");
    assert_eq!(m.get_strand_key("c".to_string()), "none");
}

#[test]
fn ribosome_ok_walk_asks_each_fit_then_ends() {
    let (rib, action) = Ribosome::connect("0loMIC2O3UW1yuTW".to_string());
    assert!(expect_fit(&action) == Bootstrap::doc_slice_prep_key());
    let (rib, action) = rib.on_fit_reply(LogicInComm::NextOk);
    assert!(expect_fit(&action.unwrap()) == Bootstrap::file_append_slice_key());
    let (rib, action) = rib.on_fit_reply(LogicInComm::NextOk);
    assert!(matches!(action, Some(LogicOutComm::EndOfStrand)));
    assert!(!rib.awaits_fit() && !rib.awaits_arg());
}
