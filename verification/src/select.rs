//! Choosing an account by row number or email, and the label it is shown
//! under.

use vstd::prelude::*;
use crate::auth::AuthInfo;
use crate::cli::CliError;
use crate::registry::AccountRecord;
use crate::text::{
    chars_eq_ignore_case, chars_of, decimal, eq_ignore_case, parse_usize, parsed_usize, push_decimal,
    push_str, same_text, string_of, trim, trim_chars,
};

verus! {

/// How many records have an email equal to `sel` ignoring ASCII case.
pub open spec fn email_match_count(s: Seq<AccountRecord>, sel: Seq<char>) -> nat
    decreases s.len(),
{
    if s.len() == 0 {
        0
    } else {
        email_match_count(s.drop_last(), sel) + if eq_ignore_case(s.last().email@, sel) {
            1nat
        } else {
            0nat
        }
    }
}

proof fn lemma_match_count_positive(s: Seq<AccountRecord>, sel: Seq<char>, i: int)
    requires
        0 <= i < s.len(),
        eq_ignore_case(s[i].email@, sel),
    ensures
        email_match_count(s, sel) >= 1,
    decreases s.len(),
{
    if i < s.len() - 1 {
        lemma_match_count_positive(s.drop_last(), sel, i);
    }
}

proof fn lemma_match_count_two(s: Seq<AccountRecord>, sel: Seq<char>, i: int, j: int)
    requires
        0 <= i < j < s.len(),
        eq_ignore_case(s[i].email@, sel),
        eq_ignore_case(s[j].email@, sel),
    ensures
        email_match_count(s, sel) >= 2,
    decreases s.len(),
{
    if j < s.len() - 1 {
        lemma_match_count_two(s.drop_last(), sel, i, j);
    } else {
        lemma_match_count_positive(s.drop_last(), sel, i);
    }
}

proof fn lemma_match_count_zero(s: Seq<AccountRecord>, sel: Seq<char>)
    requires
        forall|j: int| 0 <= j < s.len() ==> !eq_ignore_case(#[trigger] s[j].email@, sel),
    ensures
        email_match_count(s, sel) == 0,
    decreases s.len(),
{
    if s.len() > 0 {
        lemma_match_count_zero(s.drop_last(), sel);
    }
}

proof fn lemma_match_count_one(s: Seq<AccountRecord>, sel: Seq<char>, i: int)
    requires
        0 <= i < s.len(),
        eq_ignore_case(s[i].email@, sel),
        forall|j: int| 0 <= j < s.len() && j != i ==> !eq_ignore_case(#[trigger] s[j].email@, sel),
    ensures
        email_match_count(s, sel) == 1,
    decreases s.len(),
{
    if i < s.len() - 1 {
        lemma_match_count_one(s.drop_last(), sel, i);
    } else {
        lemma_match_count_zero(s.drop_last(), sel);
    }
}

/// The message for a row number with no account.
pub open spec fn no_row_text(n: nat) -> Seq<char> {
    "no account at row "@ + decimal(n)
}

/// The message for an email that no account has.
pub open spec fn no_email_text(sel: Seq<char>) -> Seq<char> {
    "no account matches exact email `"@ + sel + "`"@
}

/// The message for an email that several accounts have.
pub open spec fn ambiguous_email_text(sel: Seq<char>) -> Seq<char> {
    "email `"@ + sel + "` matches multiple accounts; use a row number"@
}

/// Whether an error is the message with the given text.
pub open spec fn is_message(e: CliError, text: Seq<char>) -> bool {
    e matches CliError::Message(m) && m@ == text
}

/// The account a selector picks: a row number counts from 1; anything else
/// is an email compared ignoring ASCII case, which must match exactly one
/// account.
pub fn resolve_selector(accounts: &Vec<AccountRecord>, selector: &str) -> (res: Result<usize, CliError>)
    ensures
        parsed_usize(selector@) matches Some(n) ==> {
            if 1 <= n <= accounts@.len() {
                res matches Ok(i) && i == n - 1
            } else {
                res matches Err(e) && is_message(e, no_row_text(n as nat))
            }
        },
        parsed_usize(selector@) is None ==> {
            let count = email_match_count(accounts@, selector@);
            &&& count == 0 ==> (res matches Err(e) && is_message(e, no_email_text(selector@)))
            &&& count == 1 ==> (res matches Ok(i) && i < accounts@.len() && eq_ignore_case(
                accounts@[i as int].email@,
                selector@,
            ))
            &&& count > 1 ==> (res matches Err(e) && is_message(e, ambiguous_email_text(selector@)))
        },
{
    let sel = chars_of(selector);
    if let Some(number) = parse_usize(&sel) {
        if number == 0 || number > accounts.len() {
            let mut out: Vec<char> = Vec::new();
            push_str(&mut out, "no account at row ");
            push_decimal(&mut out, number as u128);
            return Err(CliError::Message(string_of(&out)));
        }
        return Ok(number - 1);
    }
    let mut first: Option<usize> = None;
    let mut second = false;
    let mut i: usize = 0;
    while i < accounts.len()
        invariant
            i <= accounts@.len(),
            sel@ == selector@,
            first is None ==> forall|j: int| 0 <= j < i ==> !eq_ignore_case(#[trigger] accounts@[j].email@, sel@),
            first matches Some(f) ==> f < i && eq_ignore_case(accounts@[f as int].email@, sel@)
                && forall|j: int| 0 <= j < f ==> !eq_ignore_case(#[trigger] accounts@[j].email@, sel@),
            first is Some && !second ==> forall|j: int| first->0 < j < i ==> !eq_ignore_case(#[trigger] accounts@[j].email@, sel@),
            second ==> first is Some && email_match_count(accounts@, sel@) >= 2,
        decreases accounts.len() - i,
    {
        let email = chars_of(accounts[i].email.as_str());
        if chars_eq_ignore_case(&email, &sel) {
            match first {
                None => {
                    first = Some(i);
                },
                Some(f) => {
                    proof {
                        lemma_match_count_two(accounts@, sel@, f as int, i as int);
                    }
                    second = true;
                },
            }
        }
        i = i + 1;
    }
    match first {
        None => {
            proof {
                lemma_match_count_zero(accounts@, sel@);
            }
            let mut out: Vec<char> = Vec::new();
            push_str(&mut out, "no account matches exact email `");
            push_str(&mut out, selector);
            push_str(&mut out, "`");
            assert(out@ =~= no_email_text(selector@));
            Err(CliError::Message(string_of(&out)))
        },
        Some(f) => {
            if second {
                let mut out: Vec<char> = Vec::new();
                push_str(&mut out, "email `");
                push_str(&mut out, selector);
                push_str(&mut out, "` matches multiple accounts; use a row number");
                assert(out@ =~= ambiguous_email_text(selector@));
                Err(CliError::Message(string_of(&out)))
            } else {
                proof {
                    lemma_match_count_one(accounts@, sel@, f as int);
                }
                Ok(f)
            }
        },
    }
}

/// The first eight characters of a workspace id.
pub open spec fn short_id(id: Seq<char>) -> Seq<char> {
    if id.len() <= 8 {
        id
    } else {
        id.take(8)
    }
}

/// The label of an account: its email, followed by the short workspace id in
/// parentheses where the email is shared.
pub open spec fn label_text(email: Seq<char>, account_id: Seq<char>, duplicate: bool) -> Seq<char> {
    if duplicate {
        email + seq![' ', '('] + short_id(account_id) + seq![')']
    } else {
        email
    }
}

/// The workspace id as a label shows it: its first eight characters.
fn short_account_id(account_id: &str) -> (res: Vec<char>)
    ensures
        res@ == short_id(account_id@),
{
    let cs = chars_of(account_id);
    let mut out: Vec<char> = Vec::new();
    let mut i: usize = 0;
    while i < cs.len() && i < 8
        invariant
            i <= cs.len(),
            i <= 8,
            cs@ == account_id@,
            out@ == cs@.take(i as int),
        decreases cs.len() - i,
    {
        out.push(cs[i]);
        assert(cs@.take(i + 1) =~= cs@.take(i as int).push(cs@[i as int]));
        i = i + 1;
    }
    assert(cs@.len() <= 8 ==> cs@.take(i as int) =~= cs@);
    out
}

fn label(email: &str, account_id: &str, duplicate: bool) -> (res: String)
    ensures
        res@ == label_text(email@, account_id@, duplicate),
{
    if duplicate {
        let mut out = chars_of(email);
        out.push(' ');
        out.push('(');
        let short = short_account_id(account_id);
        let mut i: usize = 0;
        let ghost start = out@;
        while i < short.len()
            invariant
                i <= short.len(),
                out@ == start + short@.take(i as int),
            decreases short.len() - i,
        {
            out.push(short[i]);
            assert(short@.take(i + 1) =~= short@.take(i as int).push(short@[i as int]));
            i = i + 1;
        }
        out.push(')');
        assert(short@.take(i as int) =~= short@);
        assert(out@ =~= label_text(email@, account_id@, duplicate));
        string_of(&out)
    } else {
        email.to_owned()
    }
}

/// The label of a login.
pub fn display_label(info: &AuthInfo, duplicate: bool) -> (res: String)
    ensures
        res@ == label_text(info.email@, info.account_id@, duplicate),
{
    label(info.email.as_str(), info.account_id.as_str(), duplicate)
}

/// The label of a recorded account.
pub fn display_record_label(account: &AccountRecord, duplicate: bool) -> (res: String)
    ensures
        res@ == label_text(account.email@, account.chatgpt_account_id@, duplicate),
{
    label(account.email.as_str(), account.chatgpt_account_id.as_str(), duplicate)
}

/// How many records have exactly the given email.
pub open spec fn email_count(s: Seq<AccountRecord>, email: Seq<char>) -> nat
    decreases s.len(),
{
    if s.len() == 0 {
        0
    } else {
        email_count(s.drop_last(), email) + if s.last().email@ == email {
            1nat
        } else {
            0nat
        }
    }
}

/// Whether another record shares the email of the record at `index`; never
/// for an empty list, whatever the index.
pub fn duplicate_record_email(accounts: &Vec<AccountRecord>, index: usize) -> (res: bool)
    requires
        accounts@.len() == 0 || index < accounts@.len(),
    ensures
        accounts@.len() == 0 ==> !res,
        accounts@.len() > 0 ==> res == (email_count(accounts@, accounts@[index as int].email@) > 1),
{
    if accounts.len() == 0 {
        return false;
    }
    let mut count: usize = 0;
    let mut i: usize = 0;
    while i < accounts.len()
        invariant
            i <= accounts@.len(),
            index < accounts@.len(),
            count == email_count(accounts@.take(i as int), accounts@[index as int].email@),
            count <= i,
        decreases accounts.len() - i,
    {
        assert(accounts@.take(i + 1).drop_last() =~= accounts@.take(i as int));
        if same_text(accounts[i].email.as_str(), accounts[index].email.as_str()) {
            count = count + 1;
        }
        i = i + 1;
    }
    assert(accounts@.take(i as int) =~= accounts@);
    count > 1
}

/// The message when nothing was typed at the prompt.
pub open spec fn no_selection_text() -> Seq<char> {
    "no account selected"@
}

/// The selector typed at the prompt: the line with white space trimmed,
/// refused where nothing is left.
pub fn read_selection(input: &str) -> (res: Result<String, CliError>)
    ensures
        trim(input@).len() > 0 ==> (res matches Ok(s) && s@ == trim(input@)),
        trim(input@).len() == 0 ==> (res matches Err(e) && is_message(e, no_selection_text())),
{
    let cs = chars_of(input);
    let t = trim_chars(&cs);
    if t.len() == 0 {
        return Err(CliError::Message("no account selected".to_owned()));
    }
    Ok(string_of(&t))
}

} // verus!
