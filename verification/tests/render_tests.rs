use arbolitos::model::{AddArgs, Timestamp, UpdateArgs};
use arbolitos::render::{render_height, render_u64};
use arbolitos::store::PlantStore;

#[test]
fn decimal_rendering() {
    assert_eq!(render_u64(0), "0");
    assert_eq!(render_u64(7), "7");
    assert_eq!(render_u64(10), "10");
    assert_eq!(render_u64(90210), "90210");
    assert_eq!(render_u64(u64::MAX), "18446744073709551615");
}

#[test]
fn height_rendering_drops_zero_fraction() {
    assert_eq!(render_height(15_000), "150");
    assert_eq!(render_height(15_050), "150.5");
    assert_eq!(render_height(15_025), "150.25");
    assert_eq!(render_height(0), "0");
    assert_eq!(render_height(5), "0.05");
    assert_eq!(render_height(-250), "-2.5");
}

#[test]
fn verbose_view_renders_full_block() {
    let mut store = PlantStore::new();
    let id = store.add_plant(
        AddArgs {
            name: "Rosal".to_string(),
            species: "Rosa rosae".to_string(),
            tags: " flor , jardin ".to_string(),
            notes: "regalo de mama".to_string(),
        },
        Timestamp { millis: 1_000 },
    );
    let hex = arbolitos::ident::render_plant_id(&id);
    let date_millis: i64 = 1_700_001_234_567;
    let args = UpdateArgs {
        id: hex.clone(),
        name: None,
        species: None,
        add_tag: None,
        remove_tag: None,
        height_cm_hundredths: Some(1_550),
        image_url: Some("fotos/rosal.jpg".to_string()),
        comment: Some("crece bien".to_string()),
    };
    store.update_plant(&args, Timestamp { millis: date_millis }).unwrap();

    let rendered_date = chrono::DateTime::<chrono::Utc>::from_timestamp_millis(date_millis)
        .unwrap()
        .to_rfc3339();
    let expected = format!(
        "Name: 'Rosal'\nEspecie: 'Rosa rosae'\nTags: [\"flor\", \"jardin\"]\nNotas: regalo de mama\nID: '{}',\n  Update 1:\n    Fecha: {}\n    Altura: 15.5 cm\n    Imagen: fotos/rosal.jpg\n    Comentario: 'crece bien'\n\n",
        hex, rendered_date
    );
    let text = store.view_plant(&None, &Some(hex), false).unwrap();
    assert_eq!(text, expected);
}

#[test]
fn verbose_view_marks_missing_updates() {
    let mut store = PlantStore::new();
    let id = store.add_plant(
        AddArgs {
            name: "Helecho".to_string(),
            species: "Nephrolepis".to_string(),
            tags: "interior".to_string(),
            notes: "".to_string(),
        },
        Timestamp { millis: 42 },
    );
    let hex = arbolitos::ident::render_plant_id(&id);
    let expected = format!(
        "Name: 'Helecho'\nEspecie: 'Nephrolepis'\nTags: [\"interior\"]\nNotas: \nID: '{}',\nUpdates: Ninguno\n\n",
        hex
    );
    assert_eq!(store.view_plant(&None, &Some(hex), false).unwrap(), expected);
}

#[test]
fn removing_last_tag_renders_empty_list() {
    let mut store = PlantStore::new();
    let id = store.add_plant(
        AddArgs {
            name: "Bonsai".to_string(),
            species: "Ficus".to_string(),
            tags: "interior".to_string(),
            notes: "".to_string(),
        },
        Timestamp { millis: 42 },
    );
    let hex = arbolitos::ident::render_plant_id(&id);
    let args = UpdateArgs {
        id: hex.clone(),
        name: None,
        species: None,
        add_tag: None,
        remove_tag: Some("interior".to_string()),
        height_cm_hundredths: None,
        image_url: None,
        comment: None,
    };
    store.update_plant(&args, Timestamp { millis: 43 }).unwrap();
    let text = store.view_plant(&None, &Some(hex), false).unwrap();
    assert!(text.contains("Tags: []"));
}

#[test]
fn empty_view_reports_no_plants() {
    let store = PlantStore::new();
    assert_eq!(
        store.view_plant(&None, &None, false).unwrap(),
        "No se encontraron plantas\n"
    );
}
