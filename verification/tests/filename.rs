use x_gettsu::filename::{
    image_extension, next_candidate, numbered_file_name, sanitize_filename, suggested_filename, Candidate,
};

#[test]
fn sanitize_replaces_every_forbidden_character() {
    assert_eq!(sanitize_filename("a\\b/c:d*e?f\"g<h>i|j"), "a_b_c_d_e_f_g_h_i_j");
    assert_eq!(sanitize_filename("日本語 ok.mp4"), "日本語 ok.mp4");
    assert_eq!(sanitize_filename(""), "");
}

#[test]
fn sanitize_is_idempotent() {
    let once = sanitize_filename("x:y/z?.jpg");
    assert_eq!(sanitize_filename(&once), once);
}

#[test]
fn single_item_gets_no_number() {
    assert_eq!(suggested_filename("alice", "123", 1, 1, "mp4"), "alice_123.mp4");
}

#[test]
fn items_are_numbered_when_several() {
    assert_eq!(suggested_filename("alice", "123", 2, 3, "jpg"), "alice_123_2.jpg");
    assert_eq!(suggested_filename("alice", "123", 10, 12, "png"), "alice_123_10.png");
}

#[test]
fn suggested_name_is_sanitized() {
    assert_eq!(suggested_filename("a", "1", 1, 1, "j?g"), "a_1.j_g");
}

#[test]
fn image_extension_from_path_before_query() {
    assert_eq!(image_extension("https://pbs.twimg.com/media/ABC.jpg?name=orig"), "jpg");
    assert_eq!(image_extension("https://pbs.twimg.com/media/ABC.PNG"), "png");
    assert_eq!(image_extension("https://example.com/a.b/c.WebP?x=1.gif"), "webp");
}

#[test]
fn image_extension_defaults_to_jpg() {
    assert_eq!(image_extension("https://example.com/a.b/noext"), "jpg");
    assert_eq!(image_extension("https://example.com/trailing."), "jpg");
    assert_eq!(image_extension(""), "jpg");
    assert_eq!(image_extension("https://example.com/dir/?q=a.png"), "jpg");
}

#[test]
fn numbered_names_keep_the_extension() {
    assert_eq!(numbered_file_name("alice_123.mp4", 2), "alice_123 (2).mp4");
    assert_eq!(numbered_file_name("archive.tar.gz", 3), "archive.tar (3).gz");
    assert_eq!(numbered_file_name("noext", 10), "noext (10)");
    assert_eq!(numbered_file_name(".hidden", 2), ".hidden (2)");
    assert_eq!(numbered_file_name("trailing.", 2), "trailing (2).");
    assert_eq!(numbered_file_name("..", 2), ".. (2)");
}

#[test]
fn numbered_names_differ() {
    let a = numbered_file_name("a.mp4", 2);
    let b = numbered_file_name("a.mp4", 12);
    assert_ne!(a, b);
    assert_ne!(a, "a.mp4");
}

#[test]
fn search_tries_name_then_numbers_from_two() {
    assert_eq!(next_candidate(Candidate::Original, true), Some(Candidate::Numbered(2)));
    assert_eq!(next_candidate(Candidate::Numbered(2), true), Some(Candidate::Numbered(3)));
    assert_eq!(next_candidate(Candidate::Original, false), None);
    assert_eq!(next_candidate(Candidate::Numbered(7), false), None);
}

#[test]
fn search_stops_on_first_free_name() {
    // Taken: the name itself, (2) and (3); free: (4).
    let taken = |c: Candidate| matches!(c, Candidate::Original | Candidate::Numbered(2) | Candidate::Numbered(3));
    let mut current = Candidate::Original;
    let mut tried = vec![current];
    while let Some(next) = next_candidate(current, taken(current)) {
        current = next;
        tried.push(current);
    }
    assert_eq!(
        tried,
        vec![Candidate::Original, Candidate::Numbered(2), Candidate::Numbered(3), Candidate::Numbered(4)]
    );
    assert_eq!(numbered_file_name("a.mp4", 4), "a (4).mp4");
}
