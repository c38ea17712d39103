//! SKILL registry: frontmatter split, injection check and field validation of
//! `SKILL.md` packages, and the decision context built from registered skills.
//!
//! A package that fails a check is only skipped with a warning; the agent loop
//! goes on.
use vstd::prelude::*;
use vstd::utf8::encode_utf8;
use crate::argmap::{lemma_text_lt_asymmetric, lemma_text_lt_transitive, text_less, text_lt};
use crate::order::{lemma_insert_keeps_order, with_key};
use crate::json::{list_pairs, number_pairs, pretty_object, pretty_object_text, text_pairs};
use crate::text::{
    first_pos, index_of_text, join, join_with, lemma_first_pos, lemma_first_pos_unique,
    lemma_index_of_text, text_eq, trim, trim_ws,
};

verus! {

/// Security level: L1 is the most critical (emergency protection).
#[derive(Debug, Clone, Copy, PartialEq, Eq, PartialOrd, Ord, Structural)]
pub enum SecurityLevel {
    L1,
    L2,
    L3,
}

impl SecurityLevel {
    pub open spec fn name(self) -> Seq<char> {
        match self {
            SecurityLevel::L1 => "L1"@,
            SecurityLevel::L2 => "L2"@,
            SecurityLevel::L3 => "L3"@,
        }
    }

    pub fn as_str(&self) -> (r: &'static str)
        ensures
            r@ == self.name(),
    {
        match self {
            SecurityLevel::L1 => "L1",
            SecurityLevel::L2 => "L2",
            SecurityLevel::L3 => "L3",
        }
    }
}

/// SKILL frontmatter.
#[derive(Debug, Clone)]
pub struct SkillMeta {
    pub name: String,
    pub version: String,
    pub security_level: SecurityLevel,
    pub description: String,
    pub author: String,
}

/// A registered SKILL: metadata and body (decision flow, triggers ...).
#[derive(Debug, Clone)]
pub struct Skill {
    pub meta: SkillMeta,
    pub body: String,
    pub path: String,
}

/// Outcome of loading the SKILL directories.
#[derive(Debug)]
pub struct Registry {
    pub skills: Vec<Skill>,
    /// Skipped packages: path and reason.
    pub skipped: Vec<(String, String)>,
}

/// A line without the carriage return of a `\r\n` ending.
pub open spec fn strip_cr(line: Seq<char>) -> Seq<char> {
    if line.len() > 0 && line.last() == '\r' {
        line.drop_last()
    } else {
        line
    }
}

/// The lines of `s` as `str::lines` yields them: split at `\n` (a preceding
/// `\r` dropped), no empty line after a final newline.
pub open spec fn lines_of(s: Seq<char>) -> Seq<Seq<char>>
    decreases s.len(),
{
    if s.len() == 0 {
        Seq::empty()
    } else {
        let i = first_pos(s, '\n');
        if i < 0 {
            seq![s]
        } else {
            proof {
                lemma_first_pos(s, '\n');
            }
            seq![strip_cr(s.subrange(0, i))] + lines_of(s.subrange(i + 1, s.len() as int))
        }
    }
}

proof fn lemma_lines_step(s: Seq<char>, start: int, j: int)
    requires
        0 <= start <= j < s.len(),
        s[j] == '\n',
        forall|k: int| start <= k < j ==> s[k] != '\n',
    ensures
        lines_of(s.subrange(start, s.len() as int)) == seq![strip_cr(s.subrange(start, j))] + lines_of(
            s.subrange(j + 1, s.len() as int),
        ),
{
    let t = s.subrange(start, s.len() as int);
    assert forall|k: int| 0 <= k < t.len() && (k < j - start) implies t[k] != '\n' by {
        assert(t[k] == s[start + k]);
    }
    lemma_first_pos_unique(t, '\n', j - start);
    assert(t.subrange(0, j - start) =~= s.subrange(start, j));
    assert(t.subrange(j - start + 1, t.len() as int) =~= s.subrange(j + 1, s.len() as int));
}

/// Splits text into lines, as `str::lines` does.
pub fn split_lines(s: &str) -> (r: Vec<String>)
    ensures
        r@.map_values(|x: String| x@) == lines_of(s@),
{
    let n = s.unicode_len();
    let mut out: Vec<String> = Vec::new();
    let mut start: usize = 0;
    let mut j: usize = 0;
    proof {
        assert(s@.subrange(0, n as int) =~= s@);
        assert(out@.map_values(|x: String| x@) + lines_of(s@) =~= lines_of(s@));
    }
    while j < n
        invariant
            n == s@.len(),
            start <= j <= n,
            forall|k: int| start <= k < j ==> s@[k] != '\n',
            lines_of(s@) == out@.map_values(|x: String| x@) + lines_of(
                s@.subrange(start as int, n as int),
            ),
        decreases n - j,
    {
        if s.get_char(j) == '\n' {
            proof {
                lemma_lines_step(s@, start as int, j as int);
            }
            let mut end = j;
            if end > start && s.get_char(end - 1) == '\r' {
                end = end - 1;
            }
            let line = String::from_str(s.substring_char(start, end));
            proof {
                let raw = s@.subrange(start as int, j as int);
                if j > start && s@[j - 1] == '\r' {
                    assert(raw.last() == '\r');
                    assert(line@ =~= raw.drop_last());
                } else {
                    if raw.len() > 0 {
                        assert(raw.last() == s@[j - 1]);
                    }
                    assert(line@ =~= raw);
                }
                assert(line@ == strip_cr(raw));
            }
            let ghost before = out@.map_values(|x: String| x@);
            out.push(line);
            proof {
                assert(out@.map_values(|x: String| x@) =~= before.push(
                    strip_cr(s@.subrange(start as int, j as int)),
                ));
                let rest = lines_of(s@.subrange(j + 1, n as int));
                assert(before + (seq![strip_cr(s@.subrange(start as int, j as int))] + rest)
                    =~= before.push(strip_cr(s@.subrange(start as int, j as int))) + rest);
            }
            start = j + 1;
        }
        j = j + 1;
    }
    if start < n {
        let ghost before = out@.map_values(|x: String| x@);
        let last = String::from_str(s.substring_char(start, n));
        proof {
            let t = s@.subrange(start as int, n as int);
            assert forall|k: int| 0 <= k < t.len() implies t[k] != '\n' by {
                assert(t[k] == s@[start + k]);
            }
            lemma_first_pos_unique(t, '\n', -1);
            assert(lines_of(t) == seq![t]);
        }
        out.push(last);
        proof {
            assert(out@.map_values(|x: String| x@) =~= before + seq![last@]);
        }
    } else {
        proof {
            assert(s@.subrange(start as int, n as int) =~= Seq::<char>::empty());
            assert(out@.map_values(|x: String| x@) + Seq::<Seq<char>>::empty() =~= out@.map_values(
                |x: String| x@,
            ));
        }
    }
    out
}

/// Frontmatter and body of a package: the first line must be `---`; the
/// frontmatter runs to the next `---` line; the body is everything after it.
pub open spec fn frontmatter_split(content: Seq<char>) -> Result<(Seq<char>, Seq<char>), Seq<char>> {
    let lines = lines_of(content);
    if lines.len() == 0 || lines[0] != "---"@ {
        Err("缺少 frontmatter 起始定界符 ---"@)
    } else {
        let rest = lines.subrange(1, lines.len() as int);
        let e = index_of_text(rest, "---"@);
        if e < 0 {
            Err("缺少 frontmatter 结束定界符 ---"@)
        } else {
            Ok(
                (
                    join(lines.subrange(1, 1 + e), "\n"@),
                    join(lines.subrange(e + 2, lines.len() as int), "\n"@),
                ),
            )
        }
    }
}

fn join_range(lines: &Vec<String>, from: usize, to: usize) -> (r: String)
    requires
        from <= to <= lines@.len(),
    ensures
        r@ == join(lines@.map_values(|x: String| x@).subrange(from as int, to as int), "\n"@),
{
    let mut part: Vec<String> = Vec::new();
    let mut i: usize = from;
    while i < to
        invariant
            from <= i <= to <= lines@.len(),
            part@.len() == i - from,
            part@.map_values(|x: String| x@) == lines@.map_values(|x: String| x@).subrange(
                from as int,
                i as int,
            ),
        decreases to - i,
    {
        part.push(lines[i].clone());
        proof {
            assert(part@[i - from]@ == lines@[i as int]@);
            assert(part@.map_values(|x: String| x@) =~= lines@.map_values(|x: String| x@).subrange(
                from as int,
                i + 1,
            ));
        }
        i = i + 1;
    }
    join_with(&part, "\n")
}

/// Splits a package into frontmatter and body.
pub fn split_frontmatter(content: &str) -> (r: Result<(String, String), String>)
    ensures
        r matches Ok((f, b)) ==> frontmatter_split(content@) == Ok::<
            (Seq<char>, Seq<char>),
            Seq<char>,
        >((f@, b@)),
        r matches Err(e) ==> frontmatter_split(content@) == Err::<(Seq<char>, Seq<char>), Seq<char>>(
            e@,
        ),
{
    let lines = split_lines(content);
    let ghost lv = lines@.map_values(|x: String| x@);
    let n = lines.len();
    if n == 0 || !text_eq(lines[0].as_str(), "---") {
        return Err(String::from_str("缺少 frontmatter 起始定界符 ---"));
    }
    let ghost rest = lv.subrange(1, n as int);
    let mut k: usize = 1;
    while k < n
        invariant
            n == lines@.len(),
            lv == lines@.map_values(|x: String| x@),
            rest == lv.subrange(1, n as int),
            lv == lines_of(content@),
            lv.len() > 0 && lv[0] == "---"@,
            1 <= k <= n,
            forall|j: int| 0 <= j < k - 1 ==> rest[j] != "---"@,
        decreases n - k,
    {
        if text_eq(lines[k].as_str(), "---") {
            proof {
                assert(rest[k - 1] == lv[k as int]);
                lemma_index_of_text(rest, "---"@, k - 1);
            }
            let f = join_range(&lines, 1, k);
            let b = join_range(&lines, k + 1, n);
            return Ok((f, b));
        }
        k = k + 1;
    }
    proof {
        lemma_index_of_text(rest, "---"@, -1);
    }
    Err(String::from_str("缺少 frontmatter 结束定界符 ---"))
}

/// Characters allowed in a SKILL name.
pub open spec fn name_char_ok(c: char) -> bool {
    ('a' <= c && c <= 'z') || ('0' <= c && c <= '9') || c == '-'
}

/// Why metadata is refused, if it is.
pub open spec fn meta_problem(meta: SkillMeta) -> Option<Seq<char>> {
    let name = meta.name@;
    if name.len() == 0 || (encode_utf8(name).len() as usize) > 64 {
        Some("name 缺失或超长（≤64）"@)
    } else if !(forall|i: int| 0 <= i < name.len() ==> name_char_ok(#[trigger] name[i])) {
        Some("name 非法（仅小写字母/数字/连字符）: "@ + name)
    } else if meta.version@.len() == 0 {
        Some("version 缺失"@)
    } else if meta.description@.len() == 0 {
        Some("description 缺失"@)
    } else {
        None
    }
}

/// Checks the fields: a name of at most 64 bytes made of lower-case letters,
/// digits and `-`; a version; a description.
pub fn validate(meta: &SkillMeta) -> (r: Result<(), String>)
    ensures
        r is Ok <==> meta_problem(*meta) is None,
        r matches Err(e) ==> meta_problem(*meta) == Some(e@),
{
    let name = meta.name.as_str();
    let n = name.unicode_len();
    if n == 0 || name.len() > 64 {
        return Err(String::from_str("name 缺失或超长（≤64）"));
    }
    let mut i: usize = 0;
    while i < n
        invariant
            n == name@.len(),
            n > 0,
            (encode_utf8(meta.name@).len() as usize) <= 64,
            name@ == meta.name@,
            i <= n,
            forall|j: int| 0 <= j < i ==> name_char_ok(#[trigger] name@[j]),
        decreases n - i,
    {
        let c = name.get_char(i);
        if !(('a' <= c && c <= 'z') || ('0' <= c && c <= '9') || c == '-') {
            proof {
                assert(!name_char_ok(name@[i as int]));
                assert(!(forall|j: int| 0 <= j < meta.name@.len() ==> name_char_ok(#[trigger] meta.name@[j])));
            }
            return Err(String::from_str("name 非法（仅小写字母/数字/连字符）: ").concat(name));
        }
        i = i + 1;
    }
    if meta.version.as_str().unicode_len() == 0 {
        return Err(String::from_str("version 缺失"));
    }
    if meta.description.as_str().unicode_len() == 0 {
        return Err(String::from_str("description 缺失"));
    }
    Ok(())
}

/// The top level of a YAML document as `serde_yaml` reads it: a parse error
/// message, or, for a mapping, each entry's key (when it is a string) and
/// whether its value is a plain string; `None` when the document is not a mapping.
pub uninterp spec fn yaml_outline(text: Seq<char>) -> Result<Option<Seq<(Option<Seq<char>>, bool)>>, Seq<char>>;

/// Reads the top level of a YAML document with `serde_yaml::from_str` into a
/// `serde_yaml::Value`; the contract names the outline, a function of the text.
#[verifier::external_body]
fn read_yaml_outline(text: &str) -> (r: Result<Option<Vec<(Option<String>, bool)>>, String>)
    ensures
        yaml_outline(text@) == outline_result(r),
{
    match serde_yaml::from_str::<serde_yaml::Value>(text) {
        Err(e) => Err(e.to_string()),
        Ok(v) => match v.as_mapping() {
            None => Ok(None),
            Some(m) => {
                let mut out = Vec::new();
                for (k, val) in m {
                    out.push((k.as_str().map(|s| s.to_string()), matches!(val, serde_yaml::Value::String(_))));
                }
                Ok(Some(out))
            },
        },
    }
}

/// View of an outline reading.
pub open spec fn outline_result(r: Result<Option<Vec<(Option<String>, bool)>>, String>) -> Result<
    Option<Seq<(Option<Seq<char>>, bool)>>,
    Seq<char>,
> {
    match r {
        Ok(o) => Ok(outline_view(o)),
        Err(e) => Err(e@),
    }
}

/// View of one outline entry.
pub open spec fn entry_view(e: (Option<String>, bool)) -> (Option<Seq<char>>, bool) {
    (
        match e.0 {
            Some(s) => Some(s@),
            None => None,
        },
        e.1,
    )
}

/// View of an outline.
pub open spec fn outline_view(o: Option<Vec<(Option<String>, bool)>>) -> Option<Seq<(Option<Seq<char>>, bool)>> {
    match o {
        None => None,
        Some(v) => Some(v@.map_values(|e: (Option<String>, bool)| entry_view(e))),
    }
}

/// Keys allowed in a frontmatter.
pub open spec fn known_key(k: Seq<char>) -> bool {
    k == "name"@ || k == "version"@ || k == "security_level"@ || k == "description"@ || k == "author"@
}

/// First problem among outline entries: an unknown key (a non-string key counts
/// as the empty name), or a value that is not a string.
pub open spec fn entries_problem(entries: Seq<(Option<Seq<char>>, bool)>) -> Option<Seq<char>>
    decreases entries.len(),
{
    if entries.len() == 0 {
        None
    } else {
        let k = match entries[0].0 {
            Some(s) => s,
            None => Seq::empty(),
        };
        if !known_key(k) {
            Some("frontmatter 含未知字段: "@ + k)
        } else if !entries[0].1 {
            Some("frontmatter 字段 "@ + k + " 必须是字符串"@)
        } else {
            entries_problem(entries.drop_first())
        }
    }
}

/// Verdict on a frontmatter.
pub open spec fn frontmatter_problem(text: Seq<char>) -> Option<Seq<char>> {
    match yaml_outline(text) {
        Err(e) => Some(e),
        Ok(None) => Some("frontmatter 必须是映射"@),
        Ok(Some(entries)) => entries_problem(entries),
    }
}

/// Injection guard: the frontmatter must be a mapping whose keys are the known
/// fields and whose values are plain strings.
pub fn assert_frontmatter_safe(frontmatter: &str) -> (r: Result<(), String>)
    ensures
        r is Ok <==> frontmatter_problem(frontmatter@) is None,
        r matches Err(e) ==> frontmatter_problem(frontmatter@) == Some(e@),
{
    proof {
        reveal_strlit("");
    }
    let outline = match read_yaml_outline(frontmatter) {
        Err(e) => return Err(e),
        Ok(o) => o,
    };
    let entries = match outline {
        None => return Err(String::from_str("frontmatter 必须是映射")),
        Some(v) => v,
    };
    let ghost ev = outline_view(Some(entries));
    let ghost all = ev.unwrap();
    let n = entries.len();
    let mut i: usize = 0;
    proof {
        assert(all.subrange(0, n as int) =~= all);
    }
    while i < n
        invariant
            n == entries@.len(),
            all == outline_view(Some(entries)).unwrap(),
            all.len() == n,
            i <= n,
            entries_problem(all) == entries_problem(all.subrange(i as int, n as int)),
            frontmatter_problem(frontmatter@) == entries_problem(all),
        decreases n - i,
    {
        let entry = &entries[i];
        let key: &str = match &entry.0 {
            Some(s) => {
                proof {
                    assert(entry_view(*entry).0 == Some(s@));
                }
                s.as_str()
            },
            None => {
                proof {
                    assert(entry_view(*entry).0 is None);
                    reveal_strlit("");
                    assert(""@ =~= Seq::<char>::empty());
                }
                ""
            },
        };
        let is_known = text_eq(key, "name") || text_eq(key, "version") || text_eq(
            key,
            "security_level",
        ) || text_eq(key, "description") || text_eq(key, "author");
        proof {
            let t = all.subrange(i as int, n as int);
            assert(t[0] == all[i as int]);
            assert(all[i as int] == entry_view(entries@[i as int]));
            assert(t.drop_first() =~= all.subrange(i + 1, n as int));
            let k0 = match t[0].0 {
                Some(s) => s,
                None => Seq::<char>::empty(),
            };
            assert(k0 == key@);
        }
        if !is_known {
            return Err(String::from_str("frontmatter 含未知字段: ").concat(key));
        }
        if !entries[i].1 {
            return Err(String::from_str("frontmatter 字段 ").concat(key).concat(" 必须是字符串"));
        }
        i = i + 1;
    }
    Ok(())
}

/// A package from its parsed metadata and raw body: the metadata is checked,
/// the body trimmed.
pub fn assemble_skill(meta: SkillMeta, body: &str, path: String) -> (r: Result<Skill, String>)
    ensures
        r is Ok <==> meta_problem(meta) is None,
        r matches Err(e) ==> meta_problem(meta) == Some(e@),
        r matches Ok(s) ==> s.meta == meta && s.body@ == trim_ws(body@) && s.path == path,
{
    match validate(&meta) {
        Err(e) => Err(e),
        Ok(()) => Ok(Skill { meta, body: String::from_str(trim(body)), path }),
    }
}

/// One line of the decision context for a skill.
pub open spec fn skill_line(s: Skill) -> Seq<char> {
    "- "@ + s.meta.name@ + " (v"@ + s.meta.version@ + ", 安全分级 "@ + s.meta.security_level.name()
        + ")\n  "@ + s.meta.description@ + "\n"@
}

/// The lines of all skills, in order.
pub open spec fn skill_lines(skills: Seq<Skill>) -> Seq<char>
    decreases skills.len(),
{
    if skills.len() == 0 {
        Seq::empty()
    } else {
        skill_lines(skills.drop_last()) + skill_line(skills.last())
    }
}

/// The decision context listing the registered skills.
pub open spec fn context_text(skills: Seq<Skill>) -> Seq<char> {
    if skills.len() == 0 {
        "当前无可用 SKILL。"@
    } else {
        "可用 SKILL 清单（决策时只能从下列 SKILL 中选用）:\n"@ + skill_lines(skills)
    }
}

/// Puts the skill descriptions into the system prompt's decision context.
pub fn skills_to_context(registry: &Registry) -> (r: String)
    ensures
        r@ == context_text(registry.skills@),
{
    let n = registry.skills.len();
    if n == 0 {
        return String::from_str("当前无可用 SKILL。");
    }
    let mut out = String::from_str("可用 SKILL 清单（决策时只能从下列 SKILL 中选用）:\n");
    let ghost head = out@;
    let mut i: usize = 0;
    proof {
        assert(registry.skills@.subrange(0, 0) =~= Seq::<Skill>::empty());
        assert(head + Seq::<char>::empty() =~= head);
    }
    while i < n
        invariant
            n == registry.skills@.len(),
            i <= n,
            out@ == head + skill_lines(registry.skills@.subrange(0, i as int)),
        decreases n - i,
    {
        let s = &registry.skills[i];
        let ghost before = out@;
        out.append("- ");
        out.append(s.meta.name.as_str());
        out.append(" (v");
        out.append(s.meta.version.as_str());
        out.append(", 安全分级 ");
        out.append(s.meta.security_level.as_str());
        out.append(")\n  ");
        out.append(s.meta.description.as_str());
        out.append("\n");
        proof {
            let sub = registry.skills@.subrange(0, i + 1);
            assert(sub.drop_last() =~= registry.skills@.subrange(0, i as int));
            assert(sub.last() == *s);
            assert(out@ =~= before + skill_line(*s));
            assert(head + skill_lines(sub) =~= head + skill_lines(sub.drop_last()) + skill_line(*s));
        }
        i = i + 1;
    }
    proof {
        assert(registry.skills@.subrange(0, n as int) =~= registry.skills@);
    }
    out
}

/// Names of the skills, in order.
pub open spec fn skill_names(skills: Seq<Skill>) -> Seq<Seq<char>> {
    skills.map_values(|s: Skill| s.meta.name@)
}

impl Registry {
    /// The first registered skill called `name`.
    pub fn find(&self, name: &str) -> (r: Option<&Skill>)
        ensures
            r is None <==> index_of_text(skill_names(self.skills@), name@) < 0,
            r matches Some(s) ==> *s == self.skills@[index_of_text(skill_names(self.skills@), name@)],
    {
        let ghost names = skill_names(self.skills@);
        let n = self.skills.len();
        let mut i: usize = 0;
        while i < n
            invariant
                n == self.skills@.len(),
                names == skill_names(self.skills@),
                i <= n,
                forall|j: int| 0 <= j < i ==> names[j] != name@,
            decreases n - i,
        {
            if text_eq(self.skills[i].meta.name.as_str(), name) {
                proof {
                    lemma_index_of_text(names, name@, i as int);
                }
                return Some(&self.skills[i]);
            }
            i = i + 1;
        }
        proof {
            lemma_index_of_text(names, name@, -1);
        }
        None
    }

    /// Number of registered skills.
    pub fn len(&self) -> (n: usize)
        ensures
            n == self.skills@.len(),
    {
        self.skills.len()
    }
}

broadcast use {
    vstd::seq_lib::to_multiset_insert,
    vstd::seq_lib::to_multiset_remove,
    vstd::seq_lib::to_multiset_len,
    vstd::seq_lib::to_multiset_contains,
    vstd::multiset::group_multiset_axioms,
    vstd::multiset::lemma_multiset_empty_len,
};

/// Skills in non-decreasing order of name.
pub open spec fn sorted_by_name(skills: Seq<Skill>) -> bool {
    forall|i: int, j: int| 0 <= i < j < skills.len() ==> !text_lt(skills[j].meta.name@, skills[i].meta.name@)
}

/// A skill's name, the key it is ordered by.
pub open spec fn skill_name() -> spec_fn(Skill) -> Seq<char> {
    |s: Skill| s.meta.name@
}

/// Inserts `s` after every skill whose name is not greater.
fn insert_by_name(v: &mut Vec<Skill>, s: Skill)
    requires
        sorted_by_name(old(v)@),
    ensures
        sorted_by_name(final(v)@),
        final(v)@.to_multiset() == old(v)@.to_multiset().insert(s),
        forall|k: Seq<char>| #[trigger] with_key(final(v)@, skill_name(), k) == (if s.meta.name@ == k {
            with_key(old(v)@, skill_name(), k).push(s)
        } else {
            with_key(old(v)@, skill_name(), k)
        }),
{
    let n = v.len();
    let mut p: usize = 0;
    while p < n
        invariant
            n == v@.len(),
            p <= n,
            forall|j: int| 0 <= j < p ==> !text_lt(s.meta.name@, v@[j].meta.name@),
        ensures
            p <= n,
            forall|j: int| 0 <= j < p ==> !text_lt(s.meta.name@, v@[j].meta.name@),
            p < n ==> text_lt(s.meta.name@, v@[p as int].meta.name@),
        decreases n - p,
    {
        if text_less(s.meta.name.as_str(), v[p].meta.name.as_str()) {
            break;
        }
        p = p + 1;
    }
    let ghost old_v = v@;
    let ghost sn = s.meta.name@;
    let ghost gs = s;
    proof {
        assert forall|j: int| p <= j < old_v.len() implies text_lt(skill_name()(gs), skill_name()(old_v[j])) by {
            if p < j {
                assert(!text_lt(old_v[j].meta.name@, old_v[p as int].meta.name@));
                crate::argmap::lemma_text_lt_total(old_v[p as int].meta.name@, old_v[j].meta.name@);
                if text_lt(old_v[p as int].meta.name@, old_v[j].meta.name@) {
                    lemma_text_lt_transitive(sn, old_v[p as int].meta.name@, old_v[j].meta.name@);
                }
            }
        }
    }
    v.insert(p, s);
    proof {
        assert(v@ =~= old_v.insert(p as int, gs));
        assert forall|k: Seq<char>| #[trigger] with_key(v@, skill_name(), k) == (if sn == k {
            with_key(old_v, skill_name(), k).push(gs)
        } else {
            with_key(old_v, skill_name(), k)
        }) by {
            lemma_insert_keeps_order(old_v, p as int, gs, skill_name(), k);
        }
        assert forall|i: int, j: int| 0 <= i < j < v@.len() implies !text_lt(v@[j].meta.name@, v@[i].meta.name@) by {
            if j < p {
            } else if j == p {
                assert(v@[i] == old_v[i]);
            } else if i == p {
                let w = old_v[j - 1].meta.name@;
                if text_lt(w, sn) {
                    lemma_text_lt_transitive(w, sn, old_v[p as int].meta.name@);
                    if j - 1 == p {
                        lemma_text_lt_asymmetric(w, w);
                    }
                }
            } else if i < p {
                assert(v@[i] == old_v[i]);
                assert(v@[j] == old_v[j - 1]);
            } else {
                assert(v@[i] == old_v[i - 1]);
                assert(v@[j] == old_v[j - 1]);
            }
        }
    }
}

impl Registry {
    /// The registry of the skills loaded, ordered by name (equal names keep
    /// their order of loading), with the packages that were skipped.
    pub fn from_loaded(loaded: Vec<Skill>, skipped: Vec<(String, String)>) -> (r: Registry)
        ensures
            sorted_by_name(r.skills@),
            r.skills@.to_multiset() == loaded@.to_multiset(),
            forall|k: Seq<char>| #[trigger] with_key(r.skills@, skill_name(), k) == with_key(
                loaded@,
                skill_name(),
                k,
            ),
            r.skipped == skipped,
    {
        let mut v: Vec<Skill> = Vec::new();
        let mut rest = loaded;
        proof {
            assert(v@ =~= Seq::<Skill>::empty());
            assert(v@.to_multiset().len() == 0);
            assert(v@.to_multiset().add(rest@.to_multiset()) =~= loaded@.to_multiset());
            assert(loaded@.subrange(0, 0) =~= Seq::<Skill>::empty());
            assert(rest@ =~= loaded@.subrange(0, loaded@.len() as int));
        }
        while rest.len() > 0
            invariant
                sorted_by_name(v@),
                v@.to_multiset().add(rest@.to_multiset()) == loaded@.to_multiset(),
                rest@.len() <= loaded@.len(),
                rest@ == loaded@.subrange(loaded@.len() - rest@.len(), loaded@.len() as int),
                forall|k: Seq<char>| #[trigger] with_key(v@, skill_name(), k) == with_key(
                    loaded@.subrange(0, loaded@.len() - rest@.len()),
                    skill_name(),
                    k,
                ),
            decreases rest@.len(),
        {
            let ghost before = rest@;
            let ghost vb = v@;
            let ghost c = loaded@.len() - rest@.len();
            let s = rest.remove(0);
            let ghost gs = s;
            insert_by_name(&mut v, s);
            proof {
                assert(gs == loaded@[c]);
                assert(rest@ =~= loaded@.subrange(loaded@.len() - rest@.len(), loaded@.len() as int));
                let pre = loaded@.subrange(0, c + 1);
                assert(pre.drop_last() =~= loaded@.subrange(0, c));
                assert(pre.last() == gs);
                assert forall|k: Seq<char>| #[trigger] with_key(v@, skill_name(), k) == with_key(pre, skill_name(), k) by {
                    assert(with_key(vb, skill_name(), k) == with_key(loaded@.subrange(0, c), skill_name(), k));
                }
                assert(before.contains(before[0]));
                assert(before.to_multiset().count(before[0]) > 0);
                assert(rest@.to_multiset() =~= before.to_multiset().remove(before[0]));
                assert(v@.to_multiset().add(rest@.to_multiset()) =~= vb.to_multiset().add(before.to_multiset()));
            }
        }
        proof {
            assert(rest@.to_multiset().len() == 0);
            assert(v@.to_multiset().add(rest@.to_multiset()) =~= v@.to_multiset());
            assert(loaded@.subrange(0, loaded@.len() as int) =~= loaded@);
        }
        Registry { skills: v, skipped }
    }
}

/// The members of a registered skill's JSON object, in the order of the list.
pub open spec fn skill_fields(s: Skill) -> Seq<(Seq<char>, Seq<char>)> {
    seq![
        ("name"@, s.meta.name@),
        ("version"@, s.meta.version@),
        ("security_level"@, s.meta.security_level.name()),
        ("description"@, s.meta.description@),
        ("author"@, s.meta.author@),
        ("path"@, s.path@),
    ]
}

/// The SKILL list for a front end: pretty JSON of `{"skills": [...]}` with one
/// object of fields per registered skill, in registry order.
pub fn skills_to_json(registry: &Registry) -> (r: String)
    ensures
        r@ == pretty_object_text(
            Seq::empty(),
            Seq::empty(),
            seq![("skills"@, registry.skills@.map_values(|s: Skill| skill_fields(s)))],
        ),
{
    let mut items: Vec<Vec<(String, String)>> = Vec::new();
    let mut i: usize = 0;
    while i < registry.skills.len()
        invariant
            i <= registry.skills@.len(),
            items@.len() == i,
            forall|j: int| 0 <= j < i ==> text_pairs((#[trigger] items@[j])@) == skill_fields(registry.skills@[j]),
        decreases registry.skills@.len() - i,
    {
        let s = &registry.skills[i];
        let mut e: Vec<(String, String)> = Vec::new();
        e.push((String::from_str("name"), s.meta.name.clone()));
        e.push((String::from_str("version"), s.meta.version.clone()));
        e.push((String::from_str("security_level"), String::from_str(s.meta.security_level.as_str())));
        e.push((String::from_str("description"), s.meta.description.clone()));
        e.push((String::from_str("author"), s.meta.author.clone()));
        e.push((String::from_str("path"), s.path.clone()));
        proof {
            assert(text_pairs(e@) =~= skill_fields(*s));
        }
        items.push(e);
        i = i + 1;
    }
    let texts: Vec<(String, String)> = Vec::new();
    let numbers: Vec<(String, u64)> = Vec::new();
    let mut lists: Vec<(String, Vec<Vec<(String, String)>>)> = Vec::new();
    let ghost items_view = items@;
    lists.push((String::from_str("skills"), items));
    proof {
        assert(items_view.map_values(|o: Vec<(String, String)>| text_pairs(o@))
            =~= registry.skills@.map_values(|s: Skill| skill_fields(s)));
        assert(list_pairs(lists@) =~= seq![("skills"@, registry.skills@.map_values(|s: Skill| skill_fields(s)))]);
        assert(text_pairs(texts@) =~= Seq::empty());
        assert(number_pairs(numbers@) =~= Seq::empty());
    }
    pretty_object(&texts, &numbers, &lists)
}

} // verus!
