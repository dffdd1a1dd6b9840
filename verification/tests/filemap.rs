use easydot::filemap::{mappings_from, read_filemap, FilemapError};
use easydot::mapping::Mapping;

#[test]
fn tables_become_mappings() {
    let text = "[vim]\nsource = \"vimrc\"\ndest = \"~/.vimrc\"\n";
    assert_eq!(read_filemap(text), Ok(vec![Mapping::new("vim", "vimrc", "~/.vimrc")]));
}

#[test]
fn mappings_come_in_the_order_of_the_table_names() {
    let text = "[vim]\nsource = \"vimrc\"\ndest = \"~/.vimrc\"\n\n\
                [bash]\nsource = \"bashrc\"\ndest = \"~/.bashrc\"\n\n\
                [nvim]\nsource = \"nvim\"\ndest = \"~/.config/nvim\"\n";
    assert_eq!(
        read_filemap(text),
        Ok(vec![
            Mapping::new("bash", "bashrc", "~/.bashrc"),
            Mapping::new("nvim", "nvim", "~/.config/nvim"),
            Mapping::new("vim", "vimrc", "~/.vimrc"),
        ])
    );
}

#[test]
fn empty_document_has_no_mappings() {
    assert_eq!(read_filemap(""), Ok(vec![]));
    assert_eq!(read_filemap("# nothing here\n"), Ok(vec![]));
}

#[test]
fn values_that_are_no_tables_are_passed_over() {
    let text = "title = \"my files\"\ncount = 3\n\n[vim]\nsource = \"vimrc\"\ndest = \"~/.vimrc\"\n";
    assert_eq!(read_filemap(text), Ok(vec![Mapping::new("vim", "vimrc", "~/.vimrc")]));
}

#[test]
fn other_keys_in_a_table_do_no_harm() {
    let text = "[vim]\nsource = \"vimrc\"\ndest = \"~/.vimrc\"\nnote = 1\n";
    assert_eq!(read_filemap(text), Ok(vec![Mapping::new("vim", "vimrc", "~/.vimrc")]));
}

#[test]
fn empty_source_or_dest_is_refused() {
    let text = "[odd]\nsource = \"\"\ndest = \"~/.odd\"\n";
    assert_eq!(read_filemap(text), Err(FilemapError::Empty(String::from("odd"))));
    let text = "[odd]\nsource = \"odd\"\ndest = \"\"\n";
    assert_eq!(read_filemap(text), Err(FilemapError::Empty(String::from("odd"))));
}

#[test]
fn missing_field_counts_before_an_empty_one() {
    let text = "[odd]\nsource = \"\"\n";
    assert_eq!(read_filemap(text), Err(FilemapError::Incomplete(String::from("odd"))));
}

#[test]
fn table_without_dest_is_incomplete() {
    let text = "[vim]\nsource = \"vimrc\"\n";
    assert_eq!(read_filemap(text), Err(FilemapError::Incomplete(String::from("vim"))));
}

#[test]
fn table_without_source_is_incomplete() {
    let text = "[vim]\ndest = \"~/.vimrc\"\n";
    assert_eq!(read_filemap(text), Err(FilemapError::Incomplete(String::from("vim"))));
}

#[test]
fn field_that_is_no_string_is_incomplete() {
    let text = "[vim]\nsource = 1\ndest = \"~/.vimrc\"\n";
    assert_eq!(read_filemap(text), Err(FilemapError::Incomplete(String::from("vim"))));
    let text = "[vim]\nsource = \"vimrc\"\ndest = [\"~/.vimrc\"]\n";
    assert_eq!(read_filemap(text), Err(FilemapError::Incomplete(String::from("vim"))));
}

#[test]
fn first_incomplete_table_is_named() {
    let text = "[zsh]\nsource = \"zshrc\"\n\n[vim]\nsource = \"vimrc\"\ndest = \"~/.vimrc\"\n\n\
                [git]\ndest = \"~/.gitconfig\"\n";
    assert_eq!(read_filemap(text), Err(FilemapError::Incomplete(String::from("git"))));
}

#[test]
fn text_that_is_no_toml_is_a_syntax_error() {
    match read_filemap("[vim\nsource = ") {
        Err(FilemapError::Syntax(message)) => assert!(!message.is_empty()),
        other => panic!("expected a syntax error, got {:?}", other),
    }
}

#[test]
fn syntax_error_carries_the_words_of_the_parser() {
    let text = "[vim]\nsource = \"a\"\nsource = \"b\"\n";
    let expected = text.parse::<toml::Value>().unwrap_err().to_string();
    assert_eq!(read_filemap(text), Err(FilemapError::Syntax(expected)));
}

#[test]
fn parsed_document_gives_the_same_mappings() {
    let text = "[vim]\nsource = \"vimrc\"\ndest = \"~/.vimrc\"\n";
    let document = text.parse::<toml::Value>().unwrap();
    assert_eq!(mappings_from(&document), read_filemap(text));
}

#[test]
fn document_built_by_hand_is_read() {
    let mut inner = toml::map::Map::new();
    inner.insert(String::from("source"), toml::Value::String(String::from("vimrc")));
    inner.insert(String::from("dest"), toml::Value::String(String::from("~/.vimrc")));
    let mut top = toml::map::Map::new();
    top.insert(String::from("vim"), toml::Value::Table(inner));
    top.insert(String::from("flag"), toml::Value::Boolean(true));
    assert_eq!(
        mappings_from(&toml::Value::Table(top)),
        Ok(vec![Mapping::new("vim", "vimrc", "~/.vimrc")])
    );
}

#[test]
fn document_that_is_no_table_has_no_mappings() {
    assert_eq!(mappings_from(&toml::Value::Integer(7)), Ok(vec![]));
    assert_eq!(mappings_from(&toml::Value::String(String::from("vim"))), Ok(vec![]));
}

#[test]
fn mapping_holds_its_three_strings() {
    let mapping = Mapping::new("vim", "vimrc", "~/.vimrc");
    assert_eq!(mapping.name, "vim");
    assert_eq!(mapping.source, "vimrc");
    assert_eq!(mapping.dest, "~/.vimrc");
}
