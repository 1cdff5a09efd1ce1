use arbolitos::error::PlantError;
use arbolitos::ident::{parse_plant_id, render_plant_id};
use arbolitos::model::{AddArgs, Timestamp, UpdateArgs};
use arbolitos::store::{PlantStore, RemoveOutcome, UpdateOutcome};

fn now_at(millis: i64) -> Timestamp {
    Timestamp { millis }
}

fn no_change_args(id: String) -> UpdateArgs {
    UpdateArgs {
        id,
        name: None,
        species: None,
        add_tag: None,
        remove_tag: None,
        height_cm_hundredths: None,
        image_url: None,
        comment: None,
    }
}

#[test]
fn add_then_view_by_id_returns_supplied_fields() {
    let mut store = PlantStore::new();
    let id = store.add_plant(
        AddArgs {
            name: "Manzano".to_string(),
            species: "Malus domestica".to_string(),
            tags: " frutal , jardin ".to_string(),
            notes: "junto a la cerca".to_string(),
        },
        now_at(1_700_000_000_000),
    );
    let hex = render_plant_id(&id);
    assert_eq!(hex.len(), 24);

    let found = store.find_plants(
        &arbolitos::filter::build_filter(&None, &Some(hex.clone())).unwrap(),
    );
    assert_eq!(found.len(), 1);
    let p = &found[0];
    assert_eq!(p.id, Some(id));
    assert_eq!(p.name, "Manzano");
    assert_eq!(p.species, "Malus domestica");
    assert_eq!(p.tags, vec!["frutal", "jardin"]);
    assert_eq!(p.notes, "junto a la cerca");
    assert!(p.updates.is_empty());
    assert_eq!(p.created_at, now_at(1_700_000_000_000));
}

#[test]
fn update_with_no_fields_is_no_changes() {
    let mut store = PlantStore::new();
    let id = store.add_plant(
        AddArgs {
            name: "Limonero".to_string(),
            species: "Citrus limon".to_string(),
            tags: "citrico".to_string(),
            notes: "".to_string(),
        },
        now_at(1_000),
    );
    let hex = render_plant_id(&id);
    let outcome = store.update_plant(&no_change_args(hex.clone()), now_at(2_000)).unwrap();
    assert_eq!(outcome, UpdateOutcome::NoChanges);

    let found = store.find_plants(&arbolitos::filter::build_filter(&None, &Some(hex)).unwrap());
    assert_eq!(found.len(), 1);
    assert_eq!(found[0].name, "Limonero");
    assert_eq!(found[0].species, "Citrus limon");
    assert_eq!(found[0].tags, vec!["citrico"]);
    assert!(found[0].updates.is_empty());
    assert_eq!(found[0].created_at, now_at(1_000));
}

#[test]
fn update_with_only_height_appends_one_entry() {
    let mut store = PlantStore::new();
    let id = store.add_plant(
        AddArgs {
            name: "Rosal".to_string(),
            species: "Rosa rosae".to_string(),
            tags: "flor".to_string(),
            notes: "".to_string(),
        },
        now_at(1_000),
    );
    let hex = render_plant_id(&id);
    let mut args = no_change_args(hex.clone());
    args.height_cm_hundredths = Some(15_000);
    let outcome = store.update_plant(&args, now_at(5_000)).unwrap();
    assert_eq!(outcome, UpdateOutcome::Updated);

    let found = store.find_plants(&arbolitos::filter::build_filter(&None, &Some(hex)).unwrap());
    assert_eq!(found.len(), 1);
    let p = &found[0];
    assert_eq!(p.name, "Rosal");
    assert_eq!(p.species, "Rosa rosae");
    assert_eq!(p.tags, vec!["flor"]);
    assert_eq!(p.updates.len(), 1);
    let entry = &p.updates[0];
    assert_eq!(entry.height_cm_hundredths, (150.0f32 * 100.0) as i64);
    assert_eq!(entry.image_url, "");
    assert_eq!(entry.comment, "");
    assert_eq!(entry.date, now_at(5_000));
}

#[test]
fn update_applies_scalar_and_tag_operations() {
    let mut store = PlantStore::new();
    let id = store.add_plant(
        AddArgs {
            name: "Olivo".to_string(),
            species: "Olea europaea".to_string(),
            tags: "mediterraneo,fruto".to_string(),
            notes: "".to_string(),
        },
        now_at(1_000),
    );
    let hex = render_plant_id(&id);
    let mut args = no_change_args(hex.clone());
    args.name = Some("Olivo viejo".to_string());
    args.add_tag = Some("aceite".to_string());
    assert_eq!(store.update_plant(&args, now_at(2_000)).unwrap(), UpdateOutcome::Updated);

    let mut args2 = no_change_args(hex.clone());
    args2.remove_tag = Some("fruto".to_string());
    assert_eq!(store.update_plant(&args2, now_at(3_000)).unwrap(), UpdateOutcome::Updated);

    let found = store.find_plants(&arbolitos::filter::build_filter(&None, &Some(hex)).unwrap());
    assert_eq!(found.len(), 1);
    assert_eq!(found[0].name, "Olivo viejo");
    assert_eq!(found[0].tags, vec!["mediterraneo", "aceite"]);
}

#[test]
fn update_rejects_add_and_remove_tag_together() {
    let mut store = PlantStore::new();
    let id = store.add_plant(
        AddArgs {
            name: "Pino".to_string(),
            species: "Pinus".to_string(),
            tags: "conifera".to_string(),
            notes: "".to_string(),
        },
        now_at(1_000),
    );
    let hex = render_plant_id(&id);
    let mut args = no_change_args(hex);
    args.add_tag = Some("alto".to_string());
    args.remove_tag = Some("conifera".to_string());
    let err = store.update_plant(&args, now_at(2_000)).unwrap_err();
    assert!(matches!(err, PlantError::ExclusiveTagArgs));
}

#[test]
fn update_with_malformed_id_is_invalid_argument() {
    let mut store = PlantStore::new();
    let err = store.update_plant(&no_change_args("not-an-id".to_string()), now_at(1)).unwrap_err();
    match err {
        PlantError::InvalidId(s) => assert_eq!(s, "not-an-id"),
        _ => panic!("expected InvalidId"),
    }
}

#[test]
fn remove_existing_reports_removed_and_view_is_empty() {
    let mut store = PlantStore::new();
    let id = store.add_plant(
        AddArgs {
            name: "Nogal".to_string(),
            species: "Juglans regia".to_string(),
            tags: "fruto seco".to_string(),
            notes: "".to_string(),
        },
        now_at(1_000),
    );
    let hex = render_plant_id(&id);
    assert_eq!(store.remove_plant(&hex).unwrap(), RemoveOutcome::Removed);
    let text = store.view_plant(&None, &Some(hex), false).unwrap();
    assert_eq!(text, "No se encontraron plantas\n");
}

#[test]
fn remove_absent_reports_not_found_without_error() {
    let mut store = PlantStore::new();
    store.add_plant(
        AddArgs {
            name: "Nogal".to_string(),
            species: "Juglans regia".to_string(),
            tags: "fruto seco".to_string(),
            notes: "".to_string(),
        },
        now_at(1_000),
    );
    let absent = "ffffffffffffffffffffffff".to_string();
    assert_eq!(store.remove_plant(&absent).unwrap(), RemoveOutcome::NotFound);
    assert_eq!(store.plants.len(), 1);
}

#[test]
fn remove_with_malformed_id_is_invalid_argument() {
    let mut store = PlantStore::new();
    let err = store.remove_plant(&"xyz".to_string()).unwrap_err();
    assert!(matches!(err, PlantError::InvalidId(_)));
}

#[test]
fn view_with_search_and_id_is_invalid_argument() {
    let store = PlantStore::new();
    let err = store
        .view_plant(
            &Some("rosa".to_string()),
            &Some("000000000000000000000000".to_string()),
            false,
        )
        .unwrap_err();
    assert!(matches!(err, PlantError::ExclusiveViewArgs));
}

#[test]
fn search_matches_species_case_insensitively() {
    let mut store = PlantStore::new();
    store.add_plant(
        AddArgs {
            name: "Rosal".to_string(),
            species: "Rosa rosae".to_string(),
            tags: "flor".to_string(),
            notes: "".to_string(),
        },
        now_at(1_000),
    );
    store.add_plant(
        AddArgs {
            name: "Cactus".to_string(),
            species: "Echinopsis".to_string(),
            tags: "desierto".to_string(),
            notes: "".to_string(),
        },
        now_at(1_000),
    );
    let f = arbolitos::filter::build_filter(&Some("rose".to_string()), &None).unwrap();
    assert_eq!(store.find_plants(&f).len(), 0);

    let f = arbolitos::filter::build_filter(&Some("rosa".to_string()), &None).unwrap();
    let found = store.find_plants(&f);
    assert_eq!(found.len(), 1);
    assert_eq!(found[0].name, "Rosal");

    let f = arbolitos::filter::build_filter(&Some("ROSA R".to_string()), &None).unwrap();
    assert_eq!(store.find_plants(&f).len(), 1);
}

#[test]
fn search_matches_tags_and_name() {
    let mut store = PlantStore::new();
    store.add_plant(
        AddArgs {
            name: "Manzano".to_string(),
            species: "Malus domestica".to_string(),
            tags: "Frutal,jardin".to_string(),
            notes: "".to_string(),
        },
        now_at(1_000),
    );
    let f = arbolitos::filter::build_filter(&Some("frutal".to_string()), &None).unwrap();
    assert_eq!(store.find_plants(&f).len(), 1);
    let f = arbolitos::filter::build_filter(&Some("manza".to_string()), &None).unwrap();
    assert_eq!(store.find_plants(&f).len(), 1);
    let f = arbolitos::filter::build_filter(&Some("pera".to_string()), &None).unwrap();
    assert_eq!(store.find_plants(&f).len(), 0);
}

#[test]
fn view_with_no_arguments_selects_everything() {
    let mut store = PlantStore::new();
    store.add_plant(
        AddArgs {
            name: "A".to_string(),
            species: "Aa".to_string(),
            tags: "t".to_string(),
            notes: "".to_string(),
        },
        now_at(1_000),
    );
    store.add_plant(
        AddArgs {
            name: "B".to_string(),
            species: "Bb".to_string(),
            tags: "t".to_string(),
            notes: "".to_string(),
        },
        now_at(1_000),
    );
    let text = store.view_plant(&None, &None, true).unwrap();
    assert_eq!(
        text,
        "000000000000000000000000, 'A'\n000000000000000000000001, 'B'\n"
    );
}

#[test]
fn identifier_parse_and_render_round_trip() {
    let id = parse_plant_id("0123456789AbCdEf00000042").unwrap();
    let hex = render_plant_id(&id);
    assert_eq!(hex, "0123456789abcdef00000042");
    assert_eq!(parse_plant_id(&hex).unwrap(), id);
}

#[test]
fn identifier_rejects_bad_length_and_bad_digit() {
    assert!(parse_plant_id("abc").is_err());
    assert!(parse_plant_id("").is_err());
    assert!(parse_plant_id("0123456789abcdef0000004").is_err());
    assert!(parse_plant_id("0123456789abcdef000000420").is_err());
    assert!(parse_plant_id("0123456789abcdeg00000042").is_err());
}

#[test]
fn error_messages_name_the_offending_value() {
    let err = PlantError::InvalidId("tulip".to_string());
    assert_eq!(err.message(), "Error: ID invalido 'tulip'");
    assert_eq!(
        PlantError::ExclusiveViewArgs.message(),
        "No puedes usar search_param e id juntos"
    );
}
