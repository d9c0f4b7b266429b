use tab_launcher::detect::{choose_detected_path, program_path_candidates};

#[test]
fn candidate_list_is_fixed_and_ordered() {
    let v = program_path_candidates("/home/me", "/", "myapp");
    assert_eq!(
        v,
        vec![
            "/home/me/.local/bin/myapp.exe".to_string(),
            "/home/me/.local/bin/myapp".to_string(),
            "/home/me/AppData/Local/Programs/myapp/myapp.exe".to_string(),
        ]
    );
    let v = program_path_candidates("C:\\Users\\me", "\\", "myapp");
    assert_eq!(v[0], "C:\\Users\\me\\.local\\bin\\myapp.exe");
    assert_eq!(v[2], "C:\\Users\\me\\AppData\\Local\\Programs\\myapp\\myapp.exe");
}

#[test]
fn first_existing_candidate_wins() {
    let v = program_path_candidates("/home/me", "/", "myapp");
    let r = choose_detected_path(&v, &vec![false, true, true], "myapp");
    assert_eq!(r, "/home/me/.local/bin/myapp");
    let r = choose_detected_path(&v, &vec![true, false, false], "myapp");
    assert_eq!(r, "/home/me/.local/bin/myapp.exe");
}

#[test]
fn bare_name_is_the_last_resort() {
    let v = program_path_candidates("/home/me", "/", "myapp");
    let r = choose_detected_path(&v, &vec![false, false, false], "myapp");
    assert_eq!(r, "myapp");
    let none: Vec<String> = vec![];
    assert_eq!(choose_detected_path(&none, &vec![], "myapp"), "myapp");
}
