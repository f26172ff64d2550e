use aswitch::account::AccountRecord;
use aswitch::cmd::accounts::{ListedAccount, ResolvedAccount};
use aswitch::cmd::choice::{next_choice, prompt_for_account_from_rows, Choice};
use aswitch::time::Timestamp;

fn listed_account(
    row: usize,
    plugin_id: &str,
    alias: &str,
    email: &str,
    plan: Option<&str>,
    active: bool,
) -> ListedAccount {
    ListedAccount {
        row,
        account: AccountRecord {
            plugin_id: plugin_id.to_string(),
            alias: alias.to_string(),
            email: Some(email.to_string()),
            org_name: None,
            plan: plan.map(str::to_string),
            added_at: Timestamp { secs: 0, nanos: 0 },
            last_used_at: None,
            active,
        },
    }
}

fn sample_rows() -> Vec<ListedAccount> {
    vec![
        listed_account(1, "acme-code", "work", "work@example.com", Some("team"), true),
        listed_account(2, "acme-code", "personal", "personal@example.com", Some("pro"), false),
        listed_account(3, "codex", "work", "codex@example.com", Some("plus"), false),
    ]
}

/// Answers with the lines of `input`, and with its end behind them.
fn answer_with(rows: &Vec<ListedAccount>, input: &str) -> Option<ResolvedAccount> {
    let (mut choice, _) = prompt_for_account_from_rows(rows);
    let mut lines = input.lines();
    loop {
        if let Choice::Done(account) = choice {
            return account;
        }
        choice = next_choice(choice, rows, lines.next()).0;
    }
}

#[test]
fn interactive_use_selects_by_numbers() {
    let rows = sample_rows();
    let selected = answer_with(&rows, "2\n1\ny\n").expect("selection exists");

    assert_eq!(selected.plugin_id, "codex");
    assert_eq!(selected.alias, "work");
}

#[test]
fn interactive_use_accepts_plugin_and_alias_text() {
    let rows = sample_rows();
    let selected = answer_with(&rows, "acme-code\npersonal\nyes\n").expect("selection exists");

    assert_eq!(selected.plugin_id, "acme-code");
    assert_eq!(selected.alias, "personal");
}

#[test]
fn interactive_use_can_cancel() {
    let rows = sample_rows();
    assert!(answer_with(&rows, "q\n").is_none());
}

#[test]
fn the_only_plugin_and_account_are_only_confirmed() {
    let rows = vec![listed_account(1, "codex", "work", "codex@example.com", None, true)];
    let (choice, question) = prompt_for_account_from_rows(&rows);
    assert!(matches!(&choice, Choice::Confirm { account } if account.alias == "work"));
    assert!(question.lines.iter().any(|line| line.contains("codex")));

    let (again, _) = next_choice(choice, &rows, Some("perhaps"));
    assert!(matches!(again, Choice::Confirm { .. } | Choice::Done(None)));
    assert!(answer_with(&rows, "n\n").is_none());
    assert_eq!(answer_with(&rows, "Y\n").expect("account").plugin_id, "codex");
}

#[test]
fn an_answer_that_names_nothing_is_asked_again() {
    let rows = sample_rows();
    let (choice, _) = prompt_for_account_from_rows(&rows);
    let (choice, question) = next_choice(choice, &rows, Some("9"));
    assert!(matches!(choice, Choice::Plugin));
    assert!(!question.lines.is_empty());
    let (choice, _) = next_choice(choice, &rows, Some("CODEX"));
    assert!(matches!(choice, Choice::Account { .. } | Choice::Confirm { .. }));
    assert!(answer_with(&rows, "").is_none());
}
