use webserver::company::Company;
use webserver::config::Config;
use webserver::numbers::parse_port;
use webserver::numbers::parse_u8;
use webserver::numbers::u8_to_dec;
use webserver::person::Gender;
use webserver::person::GenderChoice;
use webserver::person::Person;
use webserver::person::gender_choice;
use webserver::server_error::ServerError;
use webserver::text::contains_str;
use webserver::text::split_char;
use webserver::text::split_str;
use webserver::text::trim;

fn strings(list: &[&str]) -> Vec<String> {
    list.iter().map(|s| s.to_string()).collect()
}

#[test]
fn parse_port_accepts_valid_ports() {
    assert_eq!(parse_port("7878"), Ok(7878));
    assert_eq!(parse_port("0"), Ok(0));
    assert_eq!(parse_port("65535"), Ok(65535));
    assert_eq!(parse_port("+80"), Ok(80));
    assert_eq!(parse_port("-0"), Ok(0));
}

#[test]
fn parse_port_tells_parse_from_range() {
    assert_eq!(parse_port("abc"), Err(ServerError::PortParse));
    assert_eq!(parse_port(""), Err(ServerError::PortParse));
    assert_eq!(parse_port("12x"), Err(ServerError::PortParse));
    assert_eq!(parse_port("99999999999"), Err(ServerError::PortParse));
    assert_eq!(parse_port("65536"), Err(ServerError::PortRange));
    assert_eq!(parse_port("-1"), Err(ServerError::PortRange));
    assert_eq!(parse_port("2147483647"), Err(ServerError::PortRange));
}

#[test]
fn parse_u8_bounds() {
    assert_eq!(parse_u8("0"), Some(0));
    assert_eq!(parse_u8("255"), Some(255));
    assert_eq!(parse_u8("+7"), Some(7));
    assert_eq!(parse_u8("256"), None);
    assert_eq!(parse_u8(""), None);
    assert_eq!(parse_u8("4x"), None);
}

#[test]
fn writes_bytes_in_decimal() {
    assert_eq!(u8_to_dec(0), "0");
    assert_eq!(u8_to_dec(7), "7");
    assert_eq!(u8_to_dec(42), "42");
    assert_eq!(u8_to_dec(100), "100");
    assert_eq!(u8_to_dec(255), "255");
}

#[test]
fn gender_names() {
    assert_eq!(Gender::Male.to_string(), "male");
    assert_eq!(Gender::Female.to_string(), "female");
    assert_eq!(Gender::GenderFluid.to_string(), "gender fluid");
    assert_eq!(Gender::Nonbinary.to_string(), "nonbinary");
    assert_eq!(Gender::Other("agender".to_string()).to_string(), "agender");
}

#[test]
fn gender_choice_by_letter() {
    assert!(matches!(gender_choice('m'), GenderChoice::Chosen(Gender::Male)));
    assert!(matches!(gender_choice('F'), GenderChoice::Chosen(Gender::Female)));
    assert!(matches!(gender_choice('g'), GenderChoice::Chosen(Gender::GenderFluid)));
    assert!(matches!(gender_choice('N'), GenderChoice::Chosen(Gender::Nonbinary)));
    assert!(matches!(gender_choice('o'), GenderChoice::NeedsName));
    assert!(matches!(gender_choice('x'), GenderChoice::Invalid));
}

#[test]
fn person_display_line() {
    let p = Person {
        name: "Ann".to_string(),
        age: 30,
        gender: Gender::Female,
        id: 0,
    };
    assert_eq!(p.to_string(), "Ann, 30, female");
}

#[test]
fn new_company_is_empty() {
    let c = Company::new();
    assert_eq!(c.current_id, 0);
    assert_eq!(c.structure.len(), 0);
}

#[test]
fn departments_are_created_once_and_deleted() {
    let mut c = Company::new();
    c.create_department("sales".to_string());
    c.create_department("sales".to_string());
    assert_eq!(c.structure.len(), 1);
    assert!(c.has_department("sales"));
    assert!(!c.has_department("hr"));
    assert!(!c.delete_department("hr"));
    assert!(c.delete_department("sales"));
    assert!(!c.has_department("sales"));
    assert_eq!(c.structure.len(), 0);
}

#[test]
fn employees_are_keyed_by_name_and_id() {
    let mut c = Company::new();
    c.create_department("sales".to_string());
    assert!(!c.add_employee("hr", "Ann", 30, Gender::Female));
    assert!(c.add_employee("sales", "Ann", 30, Gender::Female));
    assert!(c.add_employee("sales", "Bob", 41, Gender::Male));
    assert_eq!(c.current_id, 2);
    assert_eq!(c.structure[0].employees.len(), 2);
    assert_eq!(c.structure[0].employees[0].0, "Ann0");
    assert_eq!(c.structure[0].employees[1].0, "Bob1");
    assert_eq!(c.structure[0].employees[0].1.to_string(), "Ann, 30, female");
    assert!(!c.remove_employee("sales", "Ann1"));
    assert!(c.remove_employee("sales", "Ann0"));
    assert_eq!(c.structure[0].employees.len(), 1);
}

#[test]
fn config_needs_a_query() {
    assert_eq!(Config::new(&strings(&[])).unwrap_err(), "Didn't get a query string");
}

#[test]
fn config_splits_query_and_collects_files() {
    let c = Config::new(&strings(&["foo\\|bar", "a.txt", "b.txt"])).unwrap();
    assert_eq!(c.search_strings, strings(&["foo", "bar"]));
    assert_eq!(c.files, strings(&["a.txt", "b.txt"]));
    let single = Config::new(&strings(&["needle"])).unwrap();
    assert_eq!(single.search_strings, strings(&["needle"]));
    assert!(single.files.is_empty());
}

#[test]
fn search_returns_matching_lines_trimmed() {
    let c = Config {
        files: Vec::new(),
        search_strings: strings(&["hi", "wor"]),
    };
    let out = c.search_content("hello\nworld\n  hi there\r\nnope\n");
    assert_eq!(out, strings(&["world", "hi there"]));
    assert_eq!(c.search_content(""), Vec::<String>::new());
}

#[test]
fn substring_search() {
    assert!(contains_str("hello", "ell"));
    assert!(contains_str("hello", ""));
    assert!(!contains_str("hello", "elo"));
    assert!(!contains_str("", "a"));
}

#[test]
fn splitting_keeps_empty_pieces() {
    assert_eq!(split_char("a,b,,c", ','), strings(&["a", "b", "", "c"]));
    assert_eq!(split_char("", ','), strings(&[""]));
    assert_eq!(split_str("a\\|b\\|", "\\|"), strings(&["a", "b", ""]));
    assert_eq!(split_str("plain", "\\|"), strings(&["plain"]));
}

#[test]
fn trimming_blanks() {
    assert_eq!(trim("  a b \t\r\n"), "a b");
    assert_eq!(trim("   "), "");
    assert_eq!(trim("x"), "x");
}
