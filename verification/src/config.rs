//! The layout of the `.kb/` directory, domain names and the configuration's domain list.
//!
//! Paths are handled as strings in the POSIX form: joining a component appends it after a
//! `/` separator, unless the base is empty or already ends in `/`, and an absolute
//! component replaces the base.

use vstd::prelude::*;
use crate::text::{chars_of, contains_str, seq_contains_seq, seq_join, join_strings};
use crate::types::{KbConfig, KbError, KbErrorView, strings_view};
use crate::pattern::{regex_match, matches_name_expression, is_ascii_alnum};

verus! {

/// The path `base` joined with `component`, as `Path::join` forms it on POSIX systems.
pub open spec fn spec_join(base: Seq<char>, component: Seq<char>) -> Seq<char> {
    if component.len() > 0 && component[0] == '/' {
        component
    } else if base.len() == 0 || base.last() == '/' {
        base + component
    } else {
        base + seq!['/'] + component
    }
}

/// Joins a path component onto a base path.
pub fn join_path(base: &str, component: &str) -> (res: String)
    ensures
        res@ == spec_join(base@, component@),
{
    let comp = chars_of(component);
    if comp.len() > 0 && comp[0] == '/' {
        return component.to_owned();
    }
    let b = chars_of(base);
    let mut res = base.to_owned();
    if !(b.len() == 0 || b[b.len() - 1] == '/') {
        res.append("/");
        proof {
            reveal_strlit("/");
        }
    }
    res.append(component);
    res
}


/// The expression that a domain name must match: a letter or digit, then letters,
/// digits, `_` and `-`.
pub const DOMAIN_NAME_PATTERN: &'static str = "^[a-zA-Z0-9][a-zA-Z0-9_-]*$";

/// A valid domain name makes a plain file name: it holds no `/` and does not start with
/// `.`, so its expertise file lies directly in the expertise directory.
pub proof fn law_valid_domain_stays_in_expertise_dir(domain: Seq<char>, cwd: Seq<char>)
    requires
        domain_name_valid(domain),
    ensures
        !domain.contains('/'),
        !domain.contains('.'),
        spec_expertise_path(domain, cwd) == spec_expertise_dir(cwd) + seq!['/'] + domain + ".jsonl"@
            || (spec_expertise_dir(cwd).last() == '/' && spec_expertise_path(domain, cwd) == spec_expertise_dir(cwd) + domain + ".jsonl"@),
{
    assert(is_ascii_alnum(domain[0]));
    assert forall|i: int| 0 <= i < domain.len() implies domain[i] != '/' && domain[i] != '.' by {
        if i > 0 {
            assert(is_ascii_alnum(domain[i]) || domain[i] == '_' || domain[i] == '-');
        }
    }
    assert((domain + ".jsonl"@)[0] == domain[0]);
    reveal_strlit("expertise");
    reveal_strlit(".kb");
    let dir = spec_expertise_dir(cwd);
    assert(dir.len() > 0);
    assert((domain + ".jsonl"@).len() > 0) by { reveal_strlit(".jsonl"); }
    assert(dir + seq!['/'] + (domain + ".jsonl"@) =~= dir + seq!['/'] + domain + ".jsonl"@);
    assert(dir + (domain + ".jsonl"@) =~= dir + domain + ".jsonl"@);
}

/// The line that makes git merge expertise files by union.
pub const GITATTRIBUTES_LINE: &'static str = ".kb/expertise/*.jsonl merge=union";

/// `<cwd>/.kb`
pub open spec fn spec_kb_dir(cwd: Seq<char>) -> Seq<char> {
    spec_join(cwd, ".kb"@)
}

/// `<cwd>/.kb/kb.config.yaml`
pub open spec fn spec_config_path(cwd: Seq<char>) -> Seq<char> {
    spec_join(spec_kb_dir(cwd), "kb.config.yaml"@)
}

/// `<cwd>/.kb/expertise`
pub open spec fn spec_expertise_dir(cwd: Seq<char>) -> Seq<char> {
    spec_join(spec_kb_dir(cwd), "expertise"@)
}

/// `<cwd>/.kb/expertise/<domain>.jsonl`
pub open spec fn spec_expertise_path(domain: Seq<char>, cwd: Seq<char>) -> Seq<char> {
    spec_join(spec_expertise_dir(cwd), domain + ".jsonl"@)
}

/// Whether `domain` is an acceptable domain name: it matches `DOMAIN_NAME_PATTERN`,
/// that is, it is an ASCII letter or digit followed by ASCII letters, digits, `_` and `-`.
pub open spec fn domain_name_valid(domain: Seq<char>) -> bool {
    matches_name_expression(domain)
}

/// The list of domains shown when a domain is not found: `(none)` for an empty list,
/// else the names separated by `, `.
pub open spec fn available_domains(domains: Seq<Seq<char>>) -> Seq<char> {
    if domains.len() == 0 {
        "(none)"@
    } else {
        seq_join(domains, ", "@)
    }
}

/// The directory that holds the knowledge base.
pub fn get_kb_dir(cwd: &str) -> (res: String)
    ensures
        res@ == spec_kb_dir(cwd@),
{
    join_path(cwd, ".kb")
}

/// The path of the configuration file.
pub fn get_config_path(cwd: &str) -> (res: String)
    ensures
        res@ == spec_config_path(cwd@),
{
    let kb = get_kb_dir(cwd);
    join_path(kb.as_str(), "kb.config.yaml")
}

/// The directory of the per-domain expertise files.
pub fn get_expertise_dir(cwd: &str) -> (res: String)
    ensures
        res@ == spec_expertise_dir(cwd@),
{
    let kb = get_kb_dir(cwd);
    join_path(kb.as_str(), "expertise")
}

/// The expertise file of `domain`, once the name is found valid.
pub fn get_expertise_path(domain: &str, cwd: &str) -> (res: Result<String, KbError>)
    ensures
        match res {
            Ok(p) => domain_name_valid(domain@) && p@ == spec_expertise_path(domain@, cwd@),
            Err(e) => !domain_name_valid(domain@) && e@ == KbErrorView::InvalidDomainName(domain@),
        },
{
    validate_domain_name(domain)?;
    let dir = get_expertise_dir(cwd);
    let file = domain.to_owned().concat(".jsonl");
    Ok(join_path(dir.as_str(), file.as_str()))
}

/// Accepts a domain name that matches `DOMAIN_NAME_PATTERN` and refuses any other.
pub fn validate_domain_name(domain: &str) -> (res: Result<(), KbError>)
    ensures
        match res {
            Ok(()) => domain_name_valid(domain@),
            Err(e) => !domain_name_valid(domain@) && e@ == KbErrorView::InvalidDomainName(domain@),
        },
{
    domain_name_verdict(regex_match(DOMAIN_NAME_PATTERN, domain), domain)
}

/// The answer to a domain name from the pattern's verdict on it: accepted when the
/// pattern matched, refused otherwise (also when the pattern itself was refused).
pub fn domain_name_verdict(matched: Option<bool>, domain: &str) -> (res: Result<(), KbError>)
    ensures
        match res {
            Ok(()) => matched == Some(true),
            Err(e) => matched != Some(true) && e@ == KbErrorView::InvalidDomainName(domain@),
        },
{
    match matched {
        Some(true) => Ok(()),
        _ => Err(KbError::InvalidDomainName(domain.to_owned())),
    }
}

/// Refuses to go on when the knowledge base directory is not there.
pub fn ensure_kb_dir(kb_dir_is_dir: bool) -> (res: Result<(), KbError>)
    ensures
        match res {
            Ok(()) => kb_dir_is_dir,
            Err(e) => !kb_dir_is_dir && e@ == KbErrorView::NotInitialized,
        },
{
    if !kb_dir_is_dir {
        return Err(KbError::NotInitialized);
    }
    Ok(())
}

/// Accepts a domain that the configuration lists; for any other, reports the domain and
/// the list of available ones.
pub fn ensure_domain_exists(config: &KbConfig, domain: &str) -> (res: Result<(), KbError>)
    ensures
        match res {
            Ok(()) => strings_view(config.domains).contains(domain@),
            Err(e) => !strings_view(config.domains).contains(domain@) && e@ == (KbErrorView::DomainNotFound {
                domain: domain@,
                available: available_domains(strings_view(config.domains)),
            }),
        },
{
    let ghost names = strings_view(config.domains);
    let target = domain.to_owned();
    let mut i: usize = 0;
    while i < config.domains.len()
        invariant
            names == strings_view(config.domains),
            target@ == domain@,
            i <= config.domains@.len(),
            forall|j: int| 0 <= j < i ==> names[j] != domain@,
        decreases config.domains@.len() - i,
    {
        if config.domains[i] == target {
            assert(names[i as int] == domain@);
            return Ok(());
        }
        i = i + 1;
    }
    let available = if config.domains.len() == 0 {
        proof {
            reveal_strlit("(none)");
        }
        "(none)".to_owned()
    } else {
        join_strings(&config.domains, ", ")
    };
    Err(KbError::DomainNotFound { domain: target, available })
}

/// The configuration that setting up writes: the default one when there is none yet,
/// nothing when a configuration already exists.
pub fn initial_config(config_exists: bool) -> (res: Option<KbConfig>)
    ensures
        res is None <==> config_exists,
        res matches Some(c) ==> c.version@ == "1"@ && c.domains@.len() == 0,
{
    if config_exists {
        None
    } else {
        Some(KbConfig::default())
    }
}

/// The contents `.gitattributes` must take so that it holds `GITATTRIBUTES_LINE`:
/// `None` when it already does, else the old contents, a newline if they end without
/// one, and the line.
pub open spec fn spec_gitattributes_contents(existing: Seq<char>) -> Option<Seq<char>> {
    if seq_contains_seq(existing, GITATTRIBUTES_LINE@) {
        None
    } else {
        Some(existing + line_separator(existing) + GITATTRIBUTES_LINE@ + seq!['\n'])
    }
}

/// A newline when `existing` is not empty and does not end in one, else nothing.
pub open spec fn line_separator(existing: Seq<char>) -> Seq<char> {
    if existing.len() > 0 && existing.last() != '\n' {
        seq!['\n']
    } else {
        seq![]
    }
}

/// Computes the new contents of `.gitattributes` (see `spec_gitattributes_contents`).
pub fn gitattributes_contents(existing: &str) -> (res: Option<String>)
    ensures
        match res {
            Some(s) => spec_gitattributes_contents(existing@) == Some(s@),
            None => spec_gitattributes_contents(existing@) is None,
        },
{
    if contains_str(existing, GITATTRIBUTES_LINE) {
        return None;
    }
    let mut out = existing.to_owned();
    append_separator(&mut out, existing);
    out.append(GITATTRIBUTES_LINE);
    out.append("\n");
    proof {
        reveal_strlit("\n");
    }
    Some(out)
}

/// Appends the separator that `existing` needs before more lines.
fn append_separator(out: &mut String, existing: &str)
    ensures
        final(out)@ == old(out)@ + line_separator(existing@),
{
    let chars = chars_of(existing);
    if chars.len() > 0 && chars[chars.len() - 1] != '\n' {
        out.append("\n");
        proof {
            reveal_strlit("\n");
        }
    } else {
        assert(old(out)@ + line_separator(existing@) =~= old(out)@);
    }
}

/// The entries that keep local session and log data out of git.
pub open spec fn gitignore_entries() -> Seq<Seq<char>> {
    seq![".kb/sessions/"@, ".kb/access.jsonl"@, ".kb/changelog.jsonl"@]
}

/// The lines to add to `.gitignore`: each entry that `existing` does not contain, in
/// order, each followed by a newline.
pub open spec fn gitignore_additions(existing: Seq<char>, entries: Seq<Seq<char>>) -> Seq<char>
    decreases entries.len(),
{
    if entries.len() == 0 {
        seq![]
    } else {
        let rest = gitignore_additions(existing, entries.drop_last());
        if seq_contains_seq(existing, entries.last()) {
            rest
        } else {
            rest + entries.last() + seq!['\n']
        }
    }
}

/// The contents `.gitignore` must take: `None` when it already holds every entry, else
/// the old contents, a newline if they end without one, and the missing entries.
pub open spec fn spec_gitignore_contents(existing: Seq<char>) -> Option<Seq<char>> {
    let additions = gitignore_additions(existing, gitignore_entries());
    if additions.len() == 0 {
        None
    } else {
        Some(existing + line_separator(existing) + additions)
    }
}

/// Computes the new contents of `.gitignore` (see `spec_gitignore_contents`).
pub fn gitignore_contents(existing: &str) -> (res: Option<String>)
    ensures
        match res {
            Some(s) => spec_gitignore_contents(existing@) == Some(s@),
            None => spec_gitignore_contents(existing@) is None,
        },
{
    let entries: Vec<&str> = vec![".kb/sessions/", ".kb/access.jsonl", ".kb/changelog.jsonl"];
    let ghost views = entries@.map_values(|e: &str| e@);
    assert(views =~= gitignore_entries());
    let mut additions = String::new();
    let mut i: usize = 0;
    while i < entries.len()
        invariant
            views == entries@.map_values(|e: &str| e@),
            i <= entries@.len(),
            additions@ == gitignore_additions(existing@, views.take(i as int)),
        decreases entries@.len() - i,
    {
        assert(views.take(i + 1).drop_last() =~= views.take(i as int));
        if !contains_str(existing, entries[i]) {
            additions.append(entries[i]);
            additions.append("\n");
            proof {
                reveal_strlit("\n");
            }
        }
        i = i + 1;
    }
    assert(views.take(3) =~= views);
    if additions.as_str().is_empty() {
        return None;
    }
    let mut out = existing.to_owned();
    append_separator(&mut out, existing);
    out.append(additions.as_str());
    Some(out)
}


/// Whatever appears within a prefix of a text appears within the whole text.
proof fn lemma_contains_extend(s: Seq<char>, more: Seq<char>, needle: Seq<char>)
    requires
        seq_contains_seq(s, needle),
    ensures
        seq_contains_seq(s + more, needle),
{
    let i = choose|i: int| 0 <= i && i + needle.len() <= s.len() && #[trigger] s.subrange(i, i + needle.len()) == needle;
    assert((s + more).subrange(i, i + needle.len()) =~= s.subrange(i, i + needle.len()));
}

/// A text holds each of its parts.
proof fn lemma_contains_part(a: Seq<char>, b: Seq<char>, c: Seq<char>)
    ensures
        seq_contains_seq(a + b + c, b),
{
    let i = a.len() as int;
    assert((a + b + c).subrange(i, i + b.len()) =~= b);
}

/// Setting up `.gitattributes` keeps what it held before the union-merge line, and a
/// second set-up changes nothing more.
pub proof fn law_gitattributes_once(existing: Seq<char>)
    ensures
        spec_gitattributes_contents(existing) matches Some(updated) ==> {
            &&& seq_starts_with_seq(updated, existing)
            &&& spec_gitattributes_contents(updated) is None
        },
{
    if let Some(updated) = spec_gitattributes_contents(existing) {
        assert(updated.subrange(0, existing.len() as int) =~= existing);
        lemma_contains_part(existing + line_separator(existing), GITATTRIBUTES_LINE@, seq!['\n']);
    }
}

/// Setting up a second time writes nothing: the configuration exists by then, and the
/// `.gitattributes` and `.gitignore` that the first set-up left need no change.
pub proof fn law_setup_twice_writes_nothing(gitattributes: Seq<char>, gitignore: Seq<char>)
    ensures
        ({
            let ga = match spec_gitattributes_contents(gitattributes) {
                Some(u) => u,
                None => gitattributes,
            };
            spec_gitattributes_contents(ga) is None
        }),
        ({
            let gi = match spec_gitignore_contents(gitignore) {
                Some(u) => u,
                None => gitignore,
            };
            spec_gitignore_contents(gi) is None
        }),
{
    law_gitattributes_once(gitattributes);
    law_gitignore_once(gitignore);
}

/// Whether `prefix` begins `s`.
pub open spec fn seq_starts_with_seq(s: Seq<char>, prefix: Seq<char>) -> bool {
    prefix.len() <= s.len() && s.subrange(0, prefix.len() as int) == prefix
}

/// After the additions for some entries, each of those entries is held by the old text
/// or by the additions.
proof fn lemma_additions_cover(existing: Seq<char>, entries: Seq<Seq<char>>, k: int)
    requires
        0 <= k < entries.len(),
    ensures
        seq_contains_seq(existing, entries[k]) || seq_contains_seq(gitignore_additions(existing, entries), entries[k]),
    decreases entries.len(),
{
    let rest = gitignore_additions(existing, entries.drop_last());
    if k == entries.len() - 1 {
        if !seq_contains_seq(existing, entries.last()) {
            lemma_contains_part(rest, entries.last(), seq!['\n']);
        }
    } else {
        lemma_additions_cover(existing, entries.drop_last(), k);
        if seq_contains_seq(rest, entries[k]) && !seq_contains_seq(existing, entries.last()) {
            lemma_contains_extend(rest, entries.last() + seq!['\n'], entries[k]);
            assert(rest + (entries.last() + seq!['\n']) =~= rest + entries.last() + seq!['\n']);
        }
    }
}

/// The additions are empty only when every entry is already held.
proof fn lemma_no_additions(existing: Seq<char>, entries: Seq<Seq<char>>)
    requires
        forall|k: int| 0 <= k < entries.len() ==> seq_contains_seq(existing, #[trigger] entries[k]),
    ensures
        gitignore_additions(existing, entries).len() == 0,
    decreases entries.len(),
{
    if entries.len() > 0 {
        assert(seq_contains_seq(existing, entries[entries.len() - 1]));
        lemma_no_additions(existing, entries.drop_last());
    }
}

/// Setting up `.gitignore` keeps what it held before the added entries, and a second
/// set-up changes nothing more.
pub proof fn law_gitignore_once(existing: Seq<char>)
    ensures
        spec_gitignore_contents(existing) matches Some(updated) ==> {
            &&& seq_starts_with_seq(updated, existing)
            &&& spec_gitignore_contents(updated) is None
        },
{
    if let Some(updated) = spec_gitignore_contents(existing) {
        let entries = gitignore_entries();
        let additions = gitignore_additions(existing, entries);
        assert(updated.subrange(0, existing.len() as int) =~= existing);
        assert forall|k: int| 0 <= k < entries.len() implies seq_contains_seq(updated, #[trigger] entries[k]) by {
            lemma_additions_cover(existing, entries, k);
            if seq_contains_seq(existing, entries[k]) {
                lemma_contains_extend(existing, line_separator(existing) + additions, entries[k]);
                assert(existing + (line_separator(existing) + additions) =~= updated);
            } else {
                let i = choose|i: int| 0 <= i && i + entries[k].len() <= additions.len() && #[trigger] additions.subrange(i, i + entries[k].len()) == entries[k];
                let off = existing.len() + line_separator(existing).len();
                assert(updated.subrange(off + i, off + i + entries[k].len()) =~= additions.subrange(i, i + entries[k].len()));
            }
        }
        lemma_no_additions(updated, entries);
    }
}

} // verus!
