use mc_launcher::table::Table;
use mc_launcher::text::{
    characters, decimal_text, has_prefix, has_suffix, has_text, join_texts, replace_text,
    same_text, split_text, strip_prefix, text_before,
};

#[test]
fn texts_are_compared_by_their_characters() {
    assert!(same_text("natives", "natives"));
    assert!(!same_text("natives", "Natives"));
    assert!(!same_text("natives", "native"));
    assert!(same_text("", ""));
    assert_eq!(characters("愚a"), vec!['愚', 'a']);
}

#[test]
fn texts_are_searched() {
    assert!(has_text("lwjgl-natives-linux.jar", "-natives"));
    assert!(!has_text("lwjgl.jar", "-natives"));
    assert!(has_text("anything", ""));
    assert!(!has_text("", "a"));
    assert!(has_prefix("natives-linux", "natives-"));
    assert!(!has_prefix("native", "natives-"));
    assert!(has_suffix("liblwjgl.so", ".so"));
    assert!(!has_suffix("so", ".so"));
    assert!(has_suffix("so", ""));
}

#[test]
fn prefixes_are_stripped() {
    assert_eq!(strip_prefix("natives-linux", "natives-"), Some("linux".to_string()));
    assert_eq!(strip_prefix("natives-", "natives-"), Some(String::new()));
    assert_eq!(strip_prefix("linux", "natives-"), None);
}

#[test]
fn texts_are_split_like_the_standard_library_does() {
    for (text, separator) in [
        ("a,b,,c,", ","),
        ("", ","),
        (",", ","),
        ("org/lwjgl-natives-windows-natives.jar", "-natives"),
        ("aaaa", "aa"),
        ("--username ${auth_player_name}  --demo", " "),
        ("正式版-快照版", "-"),
    ] {
        let expected: Vec<String> = text.split(separator).map(|piece| piece.to_string()).collect();
        assert_eq!(split_text(text, separator), expected);
    }
}

#[test]
fn joining_undoes_splitting() {
    let text = "lib-a.jar;lib-b.jar;;1.19.2.jar";
    let pieces = split_text(text, ";");
    assert_eq!(pieces.len(), 4);
    assert_eq!(join_texts(&pieces, ";"), text);
    for piece in &pieces {
        assert!(!has_text(piece, ";"));
    }
    assert_eq!(join_texts(&Vec::new(), ";"), "");
}

#[test]
fn texts_are_replaced() {
    assert_eq!(replace_text("C:\\Games\\mc", "\\", "/"), "C:/Games/mc");
    assert_eq!(replace_text("1.20.4", ".", ""), "1204");
    assert_eq!(replace_text("aaa", "aa", "b"), "ba");
    assert_eq!(replace_text("${a}${a}", "${a}", "${a}"), "${a}${a}");
    assert!(!has_text(&replace_text("a b c", " ", "%20"), " "));
}

#[test]
fn text_before_a_mark_is_found() {
    assert_eq!(text_before("-Dos.name=Linux=x", "="), "-Dos.name");
    assert_eq!(text_before("-Xss1M", "="), "-Xss1M");
    assert_eq!(text_before("=x", "="), "");
}

#[test]
fn numbers_are_written_in_decimal() {
    assert_eq!(decimal_text(0), "0");
    assert_eq!(decimal_text(16384), "16384");
    assert_eq!(decimal_text(u64::MAX), "18446744073709551615");
}

#[test]
fn tables_keep_the_last_value_of_a_key() {
    let mut table: Table<u32> = Table::new();
    assert!(table.is_empty());
    assert_eq!(table.get("linux"), None);
    table.insert("linux".to_string(), 1);
    table.insert("windows".to_string(), 2);
    table.insert("linux".to_string(), 3);
    assert!(!table.is_empty());
    assert_eq!(table.get("linux"), Some(&3));
    assert_eq!(table.get("windows"), Some(&2));
    assert_eq!(table.get("osx"), None);
}
