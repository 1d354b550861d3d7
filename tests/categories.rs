use deckstats::category::Category;
use deckstats::input::{
    get_categories_from_answers, get_categories_from_lines, next_prompt, read_number,
    GetCategoriesError, InputMethod, InputMethodParseError, Prompt, ReadFileError,
};
use deckstats::render::{header_row, names_from_header, row_count, row_label};
use deckstats::stats::commander_with_categories;

fn lines(text: &str) -> Vec<String> {
    text.lines().map(|l| l.to_string()).collect()
}

fn pairs(cats: &[Category]) -> Vec<(String, u64)> {
    cats.iter().map(|c| (c.name.clone(), c.size)).collect()
}

#[test]
fn file_lines_give_categories_in_order() {
    let cats = get_categories_from_lines(&lines("Lands\n37\nRemoval\n8\n")).unwrap();
    assert_eq!(pairs(&cats), vec![("Lands".to_string(), 37), ("Removal".to_string(), 8)]);
}

#[test]
fn empty_file_gives_no_categories() {
    assert!(get_categories_from_lines(&[]).unwrap().is_empty());
}

#[test]
fn name_without_size_is_invalid_format() {
    assert!(matches!(
        get_categories_from_lines(&lines("Lands\n37\nRemoval")),
        Err(ReadFileError::InvalidFormat)
    ));
}

#[test]
fn size_that_is_no_number_is_invalid_number() {
    assert!(matches!(
        get_categories_from_lines(&lines("Lands\nmany\nRemoval")),
        Err(ReadFileError::InvalidNumber { .. })
    ));
    assert!(matches!(
        get_categories_from_lines(&lines("Lands\n-1\n")),
        Err(ReadFileError::InvalidNumber { .. })
    ));
    assert!(matches!(
        get_categories_from_lines(&lines("Lands\n18446744073709551616\n")),
        Err(ReadFileError::InvalidNumber { .. })
    ));
    assert!(matches!(
        get_categories_from_lines(&lines("Lands\n 3\n")),
        Err(ReadFileError::InvalidNumber { .. })
    ));
}

#[test]
fn size_with_plus_sign_and_largest_size() {
    let cats = get_categories_from_lines(&lines("A\n+5\nB\n18446744073709551615")).unwrap();
    assert_eq!(pairs(&cats), vec![("A".to_string(), 5), ("B".to_string(), u64::MAX)]);
}

#[test]
fn prompt_numbers_ignore_white_space() {
    assert_eq!(read_number(" 12 \n").ok(), Some(12));
    assert_eq!(read_number("12").ok(), Some(12));
    assert_eq!(read_number("\u{3000}7\u{a0}").ok(), Some(7));
    assert!(read_number("twelve").is_err());
    assert!(read_number("").is_err());
}

#[test]
fn prompt_answers_skip_what_is_no_number() {
    let answers = lines("two\n2\nLands\nlots\n 37\nRemoval\n8");
    let cats = get_categories_from_answers(&answers).unwrap();
    assert_eq!(pairs(&cats), vec![("Lands".to_string(), 37), ("Removal".to_string(), 8)]);
}

#[test]
fn prompt_answers_that_run_out() {
    assert!(get_categories_from_answers(&lines("2\nLands\n37\nRemoval")).is_none());
    assert!(get_categories_from_answers(&lines("x")).is_none());
    assert!(get_categories_from_answers(&lines("0")).unwrap().is_empty());
}

#[test]
fn input_method_names() {
    assert_eq!(InputMethod::parse("stdin").ok(), Some(InputMethod::Stdin));
    assert_eq!(InputMethod::parse(" file ").ok(), Some(InputMethod::Lines));
    match InputMethod::parse("web") {
        Err(InputMethodParseError::UnknownMethod { method }) => assert_eq!(method, "web"),
        Ok(_) => panic!("web is no input method"),
    }
}

#[test]
fn get_categories_by_method() {
    let file = lines("Lands\n37");
    let cats = InputMethod::Lines.get_categories(&file).unwrap();
    assert_eq!(pairs(&cats), vec![("Lands".to_string(), 37)]);
    assert!(matches!(
        InputMethod::Lines.get_categories(&lines("Lands")),
        Err(GetCategoriesError::RetrieveFile { err: ReadFileError::InvalidFormat })
    ));
    let cats = InputMethod::Stdin.get_categories(&lines("1\nLands\n37")).unwrap();
    assert_eq!(pairs(&cats), vec![("Lands".to_string(), 37)]);
    assert!(matches!(
        InputMethod::Stdin.get_categories(&lines("1\nLands")),
        Err(GetCategoriesError::EndOfInput)
    ));
}

#[test]
fn report_header_reads_back_in_order() {
    let cats = get_categories_from_lines(&lines("Lands\n37\nRemoval\n8\nDraw\n12")).unwrap();
    let stats = commander_with_categories(&cats, 3);
    let header = header_row(&stats);
    assert_eq!(header, vec!["", "Lands", "Removal", "Draw"]);
    assert_eq!(names_from_header(&header), vec!["Lands", "Removal", "Draw"]);
    assert!(names_from_header(&[]).is_empty());
}

#[test]
fn report_rows_follow_the_longest_category() {
    let cats = vec![
        Category { size: 200, name: "Too many".to_string() },
        Category { size: 5, name: "Few".to_string() },
    ];
    let stats = commander_with_categories(&cats, 4);
    assert_eq!(row_count(&stats), 5);
    assert_eq!(row_count(&[]), 0);
}

#[test]
fn report_row_labels() {
    assert_eq!(row_label(0), "Starting Hand");
    assert_eq!(row_label(1), "Turn 1");
    assert_eq!(row_label(10), "Turn 10");
    assert_eq!(row_label(305), "Turn 305");
}

#[test]
fn input_method_from_bare_name() {
    assert_eq!(InputMethod::from_name(&"file".to_string()).ok(), Some(InputMethod::Lines));
    assert_eq!(InputMethod::from_name(&"stdin".to_string()).ok(), Some(InputMethod::Stdin));
    assert!(InputMethod::from_name(&" file".to_string()).is_err());
    assert!(InputMethod::from_name(&"FILE".to_string()).is_err());
}

#[test]
fn errors_convert_into_their_wrappers() {
    let e: GetCategoriesError = ReadFileError::InvalidFormat.into();
    assert!(matches!(e, GetCategoriesError::RetrieveFile { err: ReadFileError::InvalidFormat }));
    let io = std::io::Error::new(std::io::ErrorKind::Other, "gone");
    let e: GetCategoriesError = io.into();
    assert!(matches!(e, GetCategoriesError::IoError { .. }));
    let io = std::io::Error::new(std::io::ErrorKind::Other, "gone");
    let e: ReadFileError = io.into();
    assert!(matches!(e, ReadFileError::FileError { .. }));
    let e: ReadFileError = "x".parse::<u64>().unwrap_err().into();
    assert!(matches!(e, ReadFileError::InvalidNumber { .. }));
}

#[test]
fn prompts_follow_the_answers() {
    let p = Prompt::Count;
    assert!(next_prompt(p, "many").is_err());
    let p = next_prompt(p, " 2 ").unwrap();
    assert_eq!(p, Prompt::Name { index: 0, count: 2 });
    let p = next_prompt(p, "Lands").unwrap();
    assert_eq!(p, Prompt::Size { index: 0, count: 2 });
    assert!(next_prompt(p, "x").is_err());
    let p = next_prompt(p, "37").unwrap();
    assert_eq!(p, Prompt::Name { index: 1, count: 2 });
    let p = next_prompt(p, "42").unwrap();
    assert_eq!(p, Prompt::Size { index: 1, count: 2 });
    let p = next_prompt(p, "8").unwrap();
    assert_eq!(p, Prompt::Done);
    assert_eq!(next_prompt(Prompt::Done, "more").unwrap(), Prompt::Done);
    assert_eq!(next_prompt(Prompt::Count, "0").unwrap(), Prompt::Done);
}

#[test]
fn input_method_from_str() {
    assert_eq!("file\n".parse::<InputMethod>().ok(), Some(InputMethod::Lines));
    assert_eq!("stdin".parse::<InputMethod>().ok(), Some(InputMethod::Stdin));
    match "csv".parse::<InputMethod>() {
        Err(InputMethodParseError::UnknownMethod { method }) => assert_eq!(method, "csv"),
        Ok(_) => panic!("csv is no input method"),
    }
}
