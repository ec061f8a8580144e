use tally::search::{CursorContext, ParsedQuery, QueryPart, Span};
use tally::tui::input::InputRequest;
use tally::tui::search_bar::{ColonAnswer, KeyResult, PartColour, SearchBar};

/// A small query language: filters by name or alias, each with the values that
/// complete it.
struct Language {
    filters: Vec<(&'static str, &'static str, Vec<String>)>,
}

impl Language {
    fn canonical(&self, word: &str) -> Option<&'static str> {
        self.filters.iter().find(|f| f.0 == word || f.1 == word).map(|f| f.0)
    }

    fn parse(&self, text: &str) -> ParsedQuery {
        let chars: Vec<char> = text.chars().collect();
        let mut parts: Vec<QueryPart> = Vec::new();
        let mut i = 0;
        while i < chars.len() {
            let start = i;
            if chars[i] == ' ' {
                while i < chars.len() && chars[i] == ' ' {
                    i += 1;
                }
                parts.push(QueryPart::Whitespace { span: Span { start, end: i } });
                continue;
            }
            while i < chars.len() && chars[i] != ' ' {
                i += 1;
            }
            let word: String = chars[start..i].iter().collect();
            let span = Span { start, end: i };
            if word.len() > 1 && word.starts_with('/') && word.ends_with('/') {
                parts.push(QueryPart::Regex { span, error: None });
            } else if let Some((name, value)) = self.filter(&word) {
                let value_start = start + word.chars().count() - value.chars().count();
                let error = if name == "amount" && value == "x" {
                    Some("not an amount".to_string())
                } else {
                    None
                };
                parts.push(QueryPart::Filter {
                    name: name.to_string(),
                    value: value.to_string(),
                    span,
                    value_span: Span { start: value_start, end: i },
                    error,
                });
            } else {
                parts.push(QueryPart::Fts { span });
            }
        }
        ParsedQuery { parts }
    }

    fn filter<'a>(&self, word: &'a str) -> Option<(&'static str, &'a str)> {
        let (name, value) = word.split_once(':')?;
        Some((self.canonical(name)?, value))
    }

    fn context(&self, parsed: &ParsedQuery, cursor: usize) -> CursorContext {
        for part in &parsed.parts {
            let span = part.span();
            if cursor < span.start || cursor > span.end {
                continue;
            }
            match part {
                QueryPart::Filter { name, value_span, .. } if cursor >= value_span.start => {
                    return CursorContext::Filter {
                        name: name.clone(),
                        offset: cursor - value_span.start,
                    };
                }
                QueryPart::Regex { .. } if cursor > span.start && cursor < span.end => {
                    return CursorContext::Regex;
                }
                QueryPart::Fts { .. } => return CursorContext::Fts,
                _ => {}
            }
        }
        CursorContext::Whitespace
    }

    fn complete(&self, name: &str, value: &str) -> Option<(Vec<String>, usize)> {
        let filter = self.filters.iter().find(|f| f.0 == name)?;
        let value = value.to_lowercase();
        let hits: Vec<String> =
            filter.2.iter().filter(|o| o.to_lowercase().contains(&value)).cloned().collect();
        Some((hits, 0))
    }
}

fn options(values: &[&str]) -> Vec<String> {
    values.iter().map(|v| v.to_string()).collect()
}

fn language() -> Language {
    Language {
        filters: vec![
            ("date", "d", vec![]),
            ("amount", "am", vec![]),
            ("account", "ac", options(&["ING/Orange", "NAB/Classic"])),
            ("category", "c", options(&["Food", "Transport"])),
        ],
    }
}

/// A bar that is parsed and completed after every edit.
struct Typed {
    bar: SearchBar,
    language: Language,
}

impl Typed {
    fn new(language: Language) -> Typed {
        Typed { bar: SearchBar::new(), language }
    }

    fn reparse(&mut self) {
        let parsed = self.language.parse(self.bar.value());
        let context = self.language.context(&parsed, self.bar.cursor());
        self.bar.reparse(parsed, context);
    }

    fn complete(&mut self) {
        let completions = match self.bar.completion_request() {
            Some(r) => self.language.complete(&r.name, &r.value),
            None => None,
        };
        self.bar.update_autocomplete(completions);
    }

    fn set_value(&mut self, value: &str) {
        self.bar.set_value(value);
        self.reparse();
        self.complete();
    }

    fn input(&mut self, req: InputRequest) -> KeyResult {
        let answer = match (req, self.bar.colon_word()) {
            (InputRequest::InsertChar(':'), Some(word)) => {
                self.language.canonical(&word).map(|name| ColonAnswer {
                    canonical: name.to_string(),
                    cleaned: self.language.parse(&self.bar.without_word()),
                })
            }
            _ => None,
        };
        let result = self.bar.handle_input(req, answer);
        self.reparse();
        self.complete();
        result
    }

    fn type_in(&mut self, text: &str) {
        for c in text.chars() {
            self.input(InputRequest::InsertChar(c));
        }
    }
}

#[test]
fn test_new_search_bar() {
    let bar = SearchBar::new();
    assert!(bar.value().is_empty());
    assert_eq!(bar.cursor(), 0);
    assert!(bar.parsed().is_empty());
}

#[test]
fn test_set_value() {
    let mut t = Typed::new(language());
    t.set_value("date:2024");
    assert_eq!(t.bar.value(), "date:2024");
    assert!(!t.bar.parsed().is_empty());
}

#[test]
fn test_handle_input() {
    let mut t = Typed::new(language());
    t.type_in("d:2024");
    // d: gets expanded to date: by colon handler
    assert_eq!(t.bar.value(), "date:2024");
}

#[test]
fn test_colon_expands_alias() {
    let mut t = Typed::new(language());
    // Type "am:" - should expand to "amount:"
    t.type_in("am");
    t.input(InputRequest::InsertChar(':'));
    assert_eq!(t.bar.value(), "amount:");
    assert_eq!(t.bar.cursor(), 7);
}

#[test]
fn test_colon_reorders_before_fts() {
    let mut t = Typed::new(language());
    // Type "coffee d:" - should become "date: coffee"
    t.type_in("coffee d");
    t.input(InputRequest::InsertChar(':'));
    assert_eq!(t.bar.value(), "date: coffee");
    assert_eq!(t.bar.cursor(), 5); // After "date:"
}

#[test]
fn test_colon_dedup_jumps_to_existing() {
    let mut t = Typed::new(language());
    // Type "date:2024 " then "d:"
    t.type_in("date:2024 d");
    t.input(InputRequest::InsertChar(':'));
    assert_eq!(t.bar.value(), "date:2024");
    assert_eq!(t.bar.cursor(), 9); // After "2024"
}

#[test]
fn test_colon_dedup_with_fts() {
    let mut t = Typed::new(language());
    // Type "date:2024 coffee d:" - should remove "d", keep FTS, jump to existing filter
    t.type_in("date:2024 coffee d");
    t.input(InputRequest::InsertChar(':'));
    assert_eq!(t.bar.value(), "date:2024 coffee");
    assert_eq!(t.bar.cursor(), 9); // After "2024"
}

#[test]
fn test_colon_unknown_filter_passes_through() {
    let mut t = Typed::new(language());
    // Type "foo:" - "foo" isn't a filter, so ':' inserted normally
    t.type_in("foo");
    t.input(InputRequest::InsertChar(':'));
    assert_eq!(t.bar.value(), "foo:");
}

#[test]
fn test_colon_reorders_with_existing_filter() {
    let mut t = Typed::new(language());
    // Type "amount:>100 coffee d:" - should become "amount:>100 date: coffee"
    t.type_in("amount:>100 coffee d");
    t.input(InputRequest::InsertChar(':'));
    assert_eq!(t.bar.value(), "amount:>100 date: coffee");
    assert_eq!(t.bar.cursor(), 17); // After "date:"
}

#[test]
fn test_slash_insert_creates_regex() {
    let mut t = Typed::new(language());
    t.input(InputRequest::InsertChar('/'));
    assert_eq!(t.bar.value(), "//");
    assert_eq!(t.bar.cursor(), 1); // Between the slashes
}

#[test]
fn a_second_slash_jumps_past_the_regex() {
    let mut t = Typed::new(language());
    t.type_in("/abc");
    assert_eq!(t.bar.value(), "/abc/");
    t.input(InputRequest::GoToStart);
    t.input(InputRequest::InsertChar('/'));
    assert_eq!(t.bar.value(), "/abc/");
    assert_eq!(t.bar.cursor(), 5);
}

#[test]
fn test_autocomplete_in_filter() {
    let mut t = Typed::new(language());
    t.set_value("account:I");
    // Move cursor to end
    for _ in 0..10 {
        t.input(InputRequest::GoToNextChar);
    }
    t.reparse();
    t.complete();
    assert!(t.bar.autocomplete_active());
    let ac = t.bar.autocomplete().unwrap();
    assert!(ac.suggestions.iter().any(|s| s.contains("ING")));
}

#[test]
fn test_autocomplete_filter_before_fts() {
    // Autocomplete must work when filter appears before FTS terms
    let mut t = Typed::new(language());
    // Type "account:I coffee" with cursor right after "I"
    t.type_in("account:I");
    // Add " coffee" after cursor
    let value = t.bar.value().to_string();
    let cursor = t.bar.cursor();
    t.bar.set_input(format!("{} coffee", value), cursor);
    t.reparse();
    t.complete();
    assert!(
        t.bar.autocomplete_active(),
        "autocomplete should be active when filter is before FTS, context: {:?}",
        t.bar.context()
    );
    let ac = t.bar.autocomplete().unwrap();
    assert!(ac.suggestions.iter().any(|s| s.contains("ING")));
}

#[test]
fn test_unicode_input_uses_character_indices() {
    let mut t = Typed::new(Language {
        filters: vec![
            ("date", "d", vec![]),
            ("category", "c", options(&["Food/Cafe", "Food/Café"])),
        ],
    });

    t.type_in("café d");
    t.input(InputRequest::InsertChar(':'));
    assert_eq!(t.bar.value(), "date: café");
    assert_eq!(t.bar.cursor(), "date:".chars().count());

    t.set_value("category:Caf");
    assert!(t.bar.autocomplete_active());
    assert!(t.bar.autocomplete_select());
    assert!(t.bar.value().starts_with("category:Food/Caf"));
}

#[test]
fn test_tilde_transition_to_fuzzy() {
    let mut t = Typed::new(language());
    // At start of input
    let res = t.input(InputRequest::InsertChar('~'));
    assert_eq!(res, KeyResult::TransitionToFuzzy);
    assert_eq!(t.bar.value(), ""); // Should NOT have inserted it

    // After space
    t.set_value("date:2024 ");
    // Move cursor to end
    for _ in 0..10 {
        t.input(InputRequest::GoToNextChar);
    }
    let res = t.input(InputRequest::InsertChar('~'));
    assert_eq!(res, KeyResult::TransitionToFuzzy);
    assert_eq!(t.bar.value(), "date:2024 "); // Should NOT have inserted it
}

#[test]
fn test_reset() {
    let mut t = Typed::new(language());
    t.set_value("date:2024");
    t.bar.reset();
    assert!(t.bar.value().is_empty());
    assert!(t.bar.parsed().is_empty());
}

#[test]
fn the_popup_wraps_and_selecting_replaces_the_value() {
    let mut t = Typed::new(language());
    t.set_value("account:");
    assert_eq!(t.bar.autocomplete().unwrap().suggestions.len(), 2);
    t.bar.autocomplete_next();
    assert_eq!(t.bar.autocomplete().unwrap().selected, 1);
    t.bar.autocomplete_next();
    assert_eq!(t.bar.autocomplete().unwrap().selected, 0);
    t.bar.autocomplete_prev();
    assert_eq!(t.bar.autocomplete().unwrap().selected, 1);
    assert!(t.bar.autocomplete_select());
    assert!(t.bar.value().starts_with("account:NAB/Classic"));
    assert!(!t.bar.autocomplete_active());
    assert!(!t.bar.autocomplete_select());
}

#[test]
fn the_error_under_the_cursor_is_shown() {
    let mut t = Typed::new(language());
    t.set_value("amount:x");
    assert_eq!(t.bar.error_message().map(|e| e.as_str()), Some("not an amount"));
    t.set_value("amount:5");
    assert!(t.bar.error_message().is_none());
}

#[test]
fn the_drawn_pieces_spell_the_text() {
    let mut t = Typed::new(language());
    t.set_value("date:2024 coffee");
    let pieces = t.bar.styled_spans(None);
    let text: String = pieces.iter().map(|p| p.0.as_str()).collect();
    assert_eq!(text, "date:2024 coffee");
    assert!(pieces.iter().all(|p| p.1 != PartColour::Red));
}
