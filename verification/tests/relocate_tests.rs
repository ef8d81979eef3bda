use repeated_photos::matcher::SimilarPair;
use repeated_photos::relocate::{
    candidate_name, decimal_string, first_step, next_step, numbered_name, relocation_sources,
    split_name, RelocationStep,
};

#[test]
fn split_at_the_last_dot() {
    assert_eq!(split_name("photo.jpg"), ("photo".to_string(), "jpg".to_string()));
    assert_eq!(split_name("archive.tar.gz"), ("archive.tar".to_string(), "gz".to_string()));
    assert_eq!(split_name(".hidden"), ("".to_string(), "hidden".to_string()));
    assert_eq!(split_name("trailing."), ("trailing".to_string(), "".to_string()));
}

#[test]
fn split_without_dot_uses_defaults() {
    assert_eq!(split_name("README"), ("file".to_string(), "png".to_string()));
    assert_eq!(split_name(""), ("file".to_string(), "png".to_string()));
}

#[test]
fn split_counts_characters_not_bytes() {
    assert_eq!(split_name("añö.jpég"), ("añö".to_string(), "jpég".to_string()));
}

#[test]
fn decimal_strings() {
    assert_eq!(decimal_string(0), "0");
    assert_eq!(decimal_string(7), "7");
    assert_eq!(decimal_string(10), "10");
    assert_eq!(decimal_string(109), "109");
    assert_eq!(decimal_string(1234567890), "1234567890");
    assert_eq!(decimal_string(u64::MAX), "18446744073709551615");
}

#[test]
fn numbered_names() {
    assert_eq!(numbered_name("photo.jpg", 1), "photo_1.jpg");
    assert_eq!(numbered_name("photo.jpg", 12), "photo_12.jpg");
    assert_eq!(numbered_name("archive.tar.gz", 3), "archive.tar_3.gz");
    assert_eq!(numbered_name("README", 2), "file_2.png");
    assert_eq!(numbered_name(".hidden", 1), "_1.hidden");
}

#[test]
fn candidates_start_with_the_name_itself() {
    assert_eq!(candidate_name("photo.jpg", 0), "photo.jpg");
    assert_eq!(candidate_name("photo.jpg", 1), "photo_1.jpg");
    assert_eq!(candidate_name("photo.jpg", 2), "photo_2.jpg");
    assert_eq!(candidate_name("README", 0), "README");
    assert_eq!(candidate_name("README", 1), "file_1.png");
}

#[test]
fn first_step_probes_the_own_name() {
    match first_step("photo.jpg") {
        RelocationStep::Probe { attempt, candidate } => {
            assert_eq!(attempt, 0);
            assert_eq!(candidate, "photo.jpg");
        }
        other => panic!("unexpected step {:?}", other),
    }
}

#[test]
fn free_name_is_copied_to() {
    match next_step("photo.jpg", 0, false) {
        RelocationStep::CopyAs { name } => assert_eq!(name, "photo.jpg"),
        other => panic!("unexpected step {:?}", other),
    }
    match next_step("photo.jpg", 4, false) {
        RelocationStep::CopyAs { name } => assert_eq!(name, "photo_4.jpg"),
        other => panic!("unexpected step {:?}", other),
    }
}

#[test]
fn taken_name_leads_to_the_next_number() {
    match next_step("photo.jpg", 0, true) {
        RelocationStep::Probe { attempt, candidate } => {
            assert_eq!(attempt, 1);
            assert_eq!(candidate, "photo_1.jpg");
        }
        other => panic!("unexpected step {:?}", other),
    }
    match next_step("photo.jpg", 9, true) {
        RelocationStep::Probe { attempt, candidate } => {
            assert_eq!(attempt, 10);
            assert_eq!(candidate, "photo_10.jpg");
        }
        other => panic!("unexpected step {:?}", other),
    }
}

#[test]
fn search_gives_up_when_the_counter_is_exhausted() {
    assert!(matches!(next_step("photo.jpg", u64::MAX, true), RelocationStep::GiveUp));
    match next_step("photo.jpg", u64::MAX, false) {
        RelocationStep::CopyAs { name } => assert_eq!(name, "photo_18446744073709551615.jpg"),
        other => panic!("unexpected step {:?}", other),
    }
}

#[test]
fn search_walks_past_taken_names() {
    let taken = ["photo.jpg", "photo_1.jpg", "photo_2.jpg"];
    let mut step = first_step("photo.jpg");
    let mut probes = 0;
    let chosen = loop {
        match step {
            RelocationStep::Probe { attempt, candidate } => {
                probes += 1;
                step = next_step("photo.jpg", attempt, taken.contains(&candidate.as_str()));
            }
            RelocationStep::CopyAs { name } => break name,
            RelocationStep::GiveUp => panic!("gave up"),
        }
    };
    assert_eq!(chosen, "photo_3.jpg");
    assert_eq!(probes, 4);
}

#[test]
fn sources_are_both_paths_of_each_pair() {
    let pairs = vec![
        SimilarPair { path_a: "a".to_string(), path_b: "b".to_string(), distance: 1 },
        SimilarPair { path_a: "a".to_string(), path_b: "c".to_string(), distance: 2 },
    ];
    assert_eq!(relocation_sources(&pairs), vec!["a", "b", "a", "c"]);
    assert_eq!(relocation_sources(&vec![]), Vec::<String>::new());
}

#[test]
fn no_candidate_is_tried_twice() {
    for name in ["photo.jpg", "README", ".hidden", "file_1.png", "a.b.c", ""] {
        let mut seen: Vec<String> = Vec::new();
        for attempt in 0..120u64 {
            let candidate = candidate_name(name, attempt);
            assert!(!seen.contains(&candidate), "{} twice for {}", candidate, name);
            seen.push(candidate);
        }
    }
}
