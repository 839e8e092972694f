use guild_onboarding::chapters::Chapter;
use guild_onboarding::chapters::Chapters;
use guild_onboarding::workflow::welcome_body;

fn sample_roster() -> Chapters {
    Chapters {
        chapters: vec![
            Chapter { name: String::from("Aegwynn"), role_id: 100 },
            Chapter { name: String::from("Tichondrius"), role_id: 200 },
        ],
    }
}

#[test]
fn get_by_id_returns_the_indexed_chapter() {
    let roster = sample_roster();
    assert_eq!(roster.get_by_id(0).unwrap().name, "Aegwynn");
    assert_eq!(roster.get_by_id(1).unwrap().role_id, 200);
    assert!(roster.get_by_id(2).is_none());
}

#[test]
fn get_by_name_finds_the_first_match() {
    let roster = sample_roster();
    assert_eq!(roster.get_by_name("Tichondrius").unwrap().role_id, 200);
    assert!(roster.get_by_name("Nordrassil").is_none());
}

#[test]
fn get_id_by_name_returns_the_index() {
    let roster = sample_roster();
    assert_eq!(roster.get_id_by_name("Aegwynn"), Some(0));
    assert_eq!(roster.get_id_by_name("Tichondrius"), Some(1));
    assert_eq!(roster.get_id_by_name("Nordrassil"), None);
}

#[test]
fn get_count_and_all() {
    let roster = sample_roster();
    assert_eq!(roster.get_count(), 2);
    let all = roster.all();
    assert_eq!(all.len(), 2);
    assert_eq!(all[0].name, "Aegwynn");
}

#[test]
fn get_role_id_reads_the_role() {
    let chapter = Chapter { name: String::from("Aegwynn"), role_id: 100 };
    assert_eq!(chapter.get_role_id(), 100);
}

#[test]
fn add_chapter_keeps_the_roster_ordered_by_name() {
    let mut roster = sample_roster();
    roster.add_chapter(Chapter { name: String::from("Nordrassil"), role_id: 300 });
    let names: Vec<&str> = roster.all().iter().map(|c| c.name.as_str()).collect();
    assert_eq!(names, ["Aegwynn", "Nordrassil", "Tichondrius"]);
}

#[test]
fn add_chapter_sorts_an_unordered_roster() {
    let mut roster = Chapters {
        chapters: vec![
            Chapter { name: String::from("Zul"), role_id: 1 },
            Chapter { name: String::from("Mug"), role_id: 2 },
        ],
    };
    roster.add_chapter(Chapter { name: String::from("Akama"), role_id: 3 });
    let names: Vec<&str> = roster.all().iter().map(|c| c.name.as_str()).collect();
    assert_eq!(names, ["Akama", "Mug", "Zul"]);
}

#[test]
fn remove_chapter_drops_the_indexed_entry() {
    let mut roster = sample_roster();
    roster.remove_chapter(0);
    assert_eq!(roster.get_count(), 1);
    assert_eq!(roster.all()[0].name, "Tichondrius");
}

#[test]
fn formatted_list_renders_the_expected_text() {
    let roster = sample_roster();
    let mut expected = String::from("Available Chapters:\n\n```");
    expected += "[0] Aegwynn";
    expected += &" ".repeat(9); // pads "Aegwynn" to the sixteen-char column
    expected += " "; // single-digit index
    expected += "[1] Tichondrius";
    expected += " "; // single-digit index
    expected += "\n"; // row break after every second entry
    expected += "\n```";
    assert_eq!(roster.to_formatted_list(), expected);
}

#[test]
fn formatted_list_of_an_empty_roster_is_just_the_frame() {
    let roster = Chapters { chapters: vec![] };
    assert_eq!(roster.to_formatted_list(), "Available Chapters:\n\n```\n```");
}

#[test]
fn welcome_body_is_roster_then_invitation() {
    let roster = sample_roster();
    let body = welcome_body(&roster);
    let expected = format!(
        "{}\n\nWelcome to the Old Gods! Please find your chapter number above and fill in the form below!",
        roster.to_formatted_list()
    );
    assert_eq!(body, expected);
}
