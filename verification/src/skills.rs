//! Agent skills: the `.repo/skills.toml` model, the install command of an
//! entry, `SKILL.md` headers, the merge of installed skills into the
//! manifest, and the decisions of `check`, `install`, `fix` and `deploy`.
use vstd::prelude::*;
use crate::args::{arg_views, contains_arg, has_arg, is_flag, starts_with_dash, wants_help_s};
use crate::frontmatter::{find_header_value, frontmatter_parts, header_value, split_frontmatter};
use crate::order::{law_sort_by_key, lemma_key_insert_pos, ordered_by_key, sort_by_key_s};
use crate::text::{
    boundary_from, byte_boundary, chars_of, dec, find, find_char, find_s, index_of, lemma_index_of_bounds, lines_s, opt_view,
    owned, seq_eq, seq_lt, split_char, split_s, str_lt, string_of, strings_view, subvec,
    usize_to_string, utf8_len, utf8_len_sat,
};

verus! {

// ── Model ───────────────────────────────────────────────────────────

/// A skill declared in `.repo/skills.toml`.
pub struct SkillEntry {
    /// Skill name (the `name` of its `SKILL.md`).
    pub name: String,
    /// Source repository or URL to install from; empty when unknown.
    pub source: String,
    /// The skill within a multi-skill source.
    pub skill: Option<String>,
    /// Target agents; empty means every detected agent.
    pub agents: Vec<String>,
    /// `"project"` (the default) or `"global"`.
    pub scope: String,
    /// Informational description.
    pub description: Option<String>,
}

/// The manifest: the declared skills.
pub struct SkillsConfig {
    pub skills: Vec<SkillEntry>,
}

/// The value of a [`SkillEntry`].
pub struct EntryV {
    pub name: Seq<char>,
    pub source: Seq<char>,
    pub skill: Option<Seq<char>>,
    pub agents: Seq<Seq<char>>,
    pub scope: Seq<char>,
    pub description: Option<Seq<char>>,
}

impl View for SkillEntry {
    type V = EntryV;

    open spec fn view(&self) -> EntryV {
        EntryV {
            name: self.name@,
            source: self.source@,
            skill: opt_view(self.skill),
            agents: strings_view(self.agents@),
            scope: self.scope@,
            description: opt_view(self.description),
        }
    }
}

pub open spec fn entry_views(v: Seq<SkillEntry>) -> Seq<EntryV> {
    v.map_values(|e: SkillEntry| e@)
}

/// The scope of an entry that does not name one.
pub fn default_scope() -> (r: String)
    ensures
        r@ == "project"@,
{
    owned("project")
}

fn copy_opt(o: &Option<String>) -> (r: Option<String>)
    ensures
        opt_view(r) == opt_view(*o),
{
    match o {
        Some(s) => Some(s.clone()),
        None => None,
    }
}

fn copy_strings(v: &Vec<String>) -> (r: Vec<String>)
    ensures
        strings_view(r@) == strings_view(v@),
{
    let mut out: Vec<String> = Vec::new();
    let mut i: usize = 0;
    while i < v.len()
        invariant
            i <= v.len(),
            strings_view(out@) == strings_view(v@).take(i as int),
        decreases v.len() - i,
    {
        let ghost b = strings_view(out@);
        out.push(v[i].clone());
        assert(strings_view(out@) =~= b.push(v@[i as int]@));
        assert(strings_view(v@).take(i + 1) =~= strings_view(v@).take(i as int).push(v@[i as int]@));
        i += 1;
    }
    assert(strings_view(v@).take(v.len() as int) =~= strings_view(v@));
    out
}

/// A copy of the entry.
pub fn copy_entry(e: &SkillEntry) -> (r: SkillEntry)
    ensures
        r@ == e@,
{
    SkillEntry {
        name: e.name.clone(),
        source: e.source.clone(),
        skill: copy_opt(&e.skill),
        agents: copy_strings(&e.agents),
        scope: e.scope.clone(),
        description: copy_opt(&e.description),
    }
}

// ── The install command ─────────────────────────────────────────────

/// ` -a <agent>` for each agent.
pub open spec fn agent_flags(agents: Seq<Seq<char>>) -> Seq<char>
    decreases agents.len(),
{
    if agents.len() == 0 {
        Seq::empty()
    } else {
        agent_flags(agents.drop_last()) + " -a "@ + agents.last()
    }
}

/// The `npx skills add` command that installs an entry, if it has a source:
/// the source, then `--skill`, one `-a` per agent, `-g` for the global
/// scope, and `-y`.
pub open spec fn install_cmd_s(e: EntryV) -> Option<Seq<char>> {
    if e.source.len() == 0 {
        None
    } else {
        Some(
            "npx skills add "@ + e.source + match e.skill {
                Some(s) => " --skill "@ + s,
                None => Seq::empty(),
            } + agent_flags(e.agents) + if e.scope == "global"@ {
                " -g"@
            } else {
                Seq::empty()
            } + " -y"@,
        )
    }
}

/// The command that installs `entry` (see [`install_cmd_s`]).
pub fn build_install_cmd(entry: &SkillEntry) -> (r: Option<String>)
    ensures
        opt_view(r) == install_cmd_s(entry@),
{
    if entry.source.as_str().is_empty() {
        return None;
    }
    let mut cmd = owned("npx skills add ");
    cmd.append(entry.source.as_str());
    let ghost head = cmd@;
    match &entry.skill {
        Some(s) => {
            cmd.append(" --skill ");
            cmd.append(s.as_str());
        },
        None => {},
    }
    let ghost with_skill = cmd@;
    let ghost av = strings_view(entry.agents@);
    let mut i: usize = 0;
    while i < entry.agents.len()
        invariant
            i <= entry.agents.len(),
            av == strings_view(entry.agents@),
            cmd@ == with_skill + agent_flags(av.take(i as int)),
        decreases entry.agents.len() - i,
    {
        assert(av.take(i + 1).drop_last() =~= av.take(i as int));
        assert(av.take(i + 1).last() == entry.agents@[i as int]@);
        cmd.append(" -a ");
        cmd.append(entry.agents[i].as_str());
        i += 1;
    }
    assert(av.take(entry.agents.len() as int) =~= av);
    let global = seq_eq(&chars_of(entry.scope.as_str()), &chars_of("global"));
    if global {
        cmd.append(" -g");
    }
    cmd.append(" -y");
    assert(cmd@ =~= install_cmd_s(entry@).unwrap());
    Some(cmd)
}

// ── SKILL.md headers ────────────────────────────────────────────────

/// The trimmed value of the first frontmatter line of `content` that
/// starts with `key`.
pub open spec fn skill_header_s(content: Seq<char>, key: Seq<char>) -> Option<Seq<char>> {
    match split_frontmatter(content) {
        Some((fm, _)) => header_value(lines_s(fm), key),
        None => None,
    }
}

fn skill_header(content: &str, key: &str) -> (r: Option<String>)
    ensures
        opt_view(r) == skill_header_s(content@, key@),
{
    let cv = chars_of(content);
    match frontmatter_parts(&cv) {
        Some((fm, _)) => match find_header_value(&fm, key) {
            Some(v) => Some(string_of(&v)),
            None => None,
        },
        None => None,
    }
}

/// The `name:` of a skill's frontmatter.
pub fn parse_skill_name(content: &str) -> (r: Option<String>)
    ensures
        opt_view(r) == skill_header_s(content@, "name:"@),
{
    skill_header(content, "name:")
}

/// A value without one pair of surrounding double quotes.
pub open spec fn strip_dquotes(v: Seq<char>) -> Seq<char> {
    if v.len() >= 2 && v[0] == '"' && v.last() == '"' {
        v.subrange(1, v.len() - 1)
    } else {
        v
    }
}

/// A description of more than 80 bytes is cut to its first 77 bytes and
/// `...`.
pub open spec fn short_description_s(v: Seq<char>) -> Seq<char> {
    if utf8_len(v) > 80 {
        v.take(boundary_from(v, 77, 0).unwrap()) + "..."@
    } else {
        v
    }
}

/// The description of a skill's frontmatter, unquoted and shortened.
pub open spec fn skill_description_s(content: Seq<char>) -> Option<Seq<char>> {
    match skill_header_s(content, "description:"@) {
        Some(v) => Some(short_description_s(strip_dquotes(v))),
        None => None,
    }
}

/// Cutting the description at byte 77 does not split a character.
pub open spec fn description_cut_ok_s(content: Seq<char>) -> bool {
    match skill_header_s(content, "description:"@) {
        Some(v) => utf8_len(strip_dquotes(v)) > 80 ==> boundary_from(strip_dquotes(v), 77, 0) is Some,
        None => true,
    }
}

fn unquote_double(v: &Vec<char>) -> (r: Vec<char>)
    ensures
        r@ == strip_dquotes(v@),
{
    if v.len() >= 2 && v[0] == '"' && v[v.len() - 1] == '"' {
        subvec(v, 1, v.len() - 1)
    } else {
        subvec(v, 0, v.len())
    }
}

/// Whether [`parse_skill_description`] can shorten the description of
/// `content` (byte 77 of a long description falls between characters).
pub fn description_cut_ok(content: &str) -> (r: bool)
    ensures
        r == description_cut_ok_s(content@),
{
    match skill_header(content, "description:") {
        Some(v) => {
            let u = unquote_double(&chars_of(v.as_str()));
            if utf8_len_sat(&u) > 80 {
                byte_boundary(&u, 77).is_some()
            } else {
                true
            }
        },
        None => true,
    }
}

/// The description of a `SKILL.md`: its `description:` header, without
/// surrounding double quotes, shortened past 80 bytes.
pub fn parse_skill_description(content: &str) -> (r: Option<String>)
    requires
        description_cut_ok_s(content@),
    ensures
        opt_view(r) == skill_description_s(content@),
{
    match skill_header(content, "description:") {
        Some(v) => {
            let u = unquote_double(&chars_of(v.as_str()));
            if utf8_len_sat(&u) > 80 {
                let k = byte_boundary(&u, 77).unwrap();
                let mut out = subvec(&u, 0, k);
                out.push('.');
                out.push('.');
                out.push('.');
                proof {
                    reveal_strlit("...");
                }
                assert(out@ =~= short_description_s(u@));
                Some(string_of(&out))
            } else {
                Some(string_of(&u))
            }
        },
        None => None,
    }
}

// ── Deploy ──────────────────────────────────────────────────────────

/// `"../"` repeated `n` times.
pub open spec fn ups(n: nat) -> Seq<char>
    decreases n,
{
    if n == 0 {
        Seq::empty()
    } else {
        ups((n - 1) as nat) + "../"@
    }
}

/// The relative symlink target from `<base>/<config_dir>/skills/<name>` to
/// `<base>/.agents/skills/<name>`: one `../` per segment of `config_dir`
/// and one for `skills`.
pub open spec fn symlink_target_s(config_dir: Seq<char>, name: Seq<char>) -> Seq<char> {
    ups(split_s(config_dir, '/').len() + 1) + ".agents/skills/"@ + name
}

/// The symlink target for a skill under an agent's config directory.
pub fn symlink_target(config_dir: &str, skill_name: &str) -> (r: String)
    ensures
        r@ == symlink_target_s(config_dir@, skill_name@),
{
    let segments = split_char(&chars_of(config_dir), '/');
    let depth = segments.len();
    let mut out = String::new();
    let mut i: usize = 0;
    while i < depth
        invariant
            i <= depth,
            depth == split_s(config_dir@, '/').len(),
            out@ == ups(i as nat),
        decreases depth - i,
    {
        out.append("../");
        i += 1;
    }
    out.append("../");
    out.append(".agents/skills/");
    out.append(skill_name);
    out
}

/// `--force` or `-f`.
pub open spec fn wants_force_s(args: Seq<Seq<char>>) -> bool {
    has_arg(args, "--force"@) || has_arg(args, "-f"@)
}

/// Whether `deploy` may overwrite.
pub fn wants_force(args: &[&str]) -> (r: bool)
    ensures
        r == wants_force_s(arg_views(args@)),
{
    contains_arg(args, "--force") || contains_arg(args, "-f")
}

/// The agents whose config directories `deploy` looks for under the home
/// directory: display name and config directory.
pub open spec fn known_agents_s() -> Seq<(Seq<char>, Seq<char>)> {
    seq![
        ("Codex"@, ".codex"@),
        ("Cursor"@, ".cursor"@),
        ("Amp"@, ".amp"@),
        ("Warp"@, ".warp"@),
        ("Cortex Code"@, ".cortex"@),
        ("Cline"@, ".cline"@),
        ("OpenCode"@, ".config/opencode"@),
    ]
}

/// The known agents (see [`known_agents_s`]).
pub fn known_agents() -> (r: Vec<(&'static str, &'static str)>)
    ensures
        r@.map_values(|p: (&'static str, &'static str)| (p.0@, p.1@)) == known_agents_s(),
{
    let r = vec![
        ("Codex", ".codex"),
        ("Cursor", ".cursor"),
        ("Amp", ".amp"),
        ("Warp", ".warp"),
        ("Cortex Code", ".cortex"),
        ("Cline", ".cline"),
        ("OpenCode", ".config/opencode"),
    ];
    assert(r@.map_values(|p: (&'static str, &'static str)| (p.0@, p.1@)) =~= known_agents_s());
    r
}

/// What reading a file of a ZIP archive as text comes to.
pub enum ZipTextV {
    /// The archive does not open (the error's text).
    BadArchive(Seq<char>),
    /// The archive has no file of that name.
    Missing,
    /// The file does not read as UTF-8 text (the error's text).
    Unreadable(Seq<char>),
    Text(Seq<char>),
}

/// [`ZipTextV`], by value.
pub enum ZipText {
    BadArchive(String),
    Missing,
    Unreadable(String),
    Text(String),
}

impl View for ZipText {
    type V = ZipTextV;

    open spec fn view(&self) -> ZipTextV {
        match self {
            ZipText::BadArchive(e) => ZipTextV::BadArchive(e@),
            ZipText::Missing => ZipTextV::Missing,
            ZipText::Unreadable(e) => ZipTextV::Unreadable(e@),
            ZipText::Text(t) => ZipTextV::Text(t@),
        }
    }
}

/// What reading the file `name` of the ZIP archive `bytes` as text gives.
pub uninterp spec fn zip_text_entry(bytes: Seq<u8>, name: Seq<char>) -> ZipTextV;

/// Reads the file `name` of the ZIP archive in `bytes` as text, with
/// `zip::ZipArchive::new`, `ZipArchive::by_name` and `Read::read_to_string`;
/// an error of `new` or of the read is kept as its text, any error of
/// `by_name` counts as a missing file. Trusted: the result is named by
/// [`zip_text_entry`] on the same bytes and name; nothing more is claimed.
#[verifier::external_body]
fn read_zip_text(bytes: &[u8], name: &str) -> (r: ZipText)
    ensures
        r@ == zip_text_entry(bytes@, name@),
{
    let mut archive = match zip::ZipArchive::new(std::io::Cursor::new(bytes)) {
        Ok(a) => a,
        Err(e) => return ZipText::BadArchive(e.to_string()),
    };
    let Ok(mut file) = archive.by_name(name) else { return ZipText::Missing };
    let mut content = String::new();
    match std::io::Read::read_to_string(&mut file, &mut content) {
        Ok(_) => ZipText::Text(content),
        Err(e) => ZipText::Unreadable(e.to_string()),
    }
}

/// The name of a ZIP-packaged skill: the `name:` of its `SKILL.md`.
pub open spec fn zip_skill_name_s(bytes: Seq<u8>) -> Option<Seq<char>> {
    match zip_text_entry(bytes, "SKILL.md"@) {
        ZipTextV::Text(t) => skill_header_s(t, "name:"@),
        _ => None,
    }
}

/// The name of the skill packaged in the `.skill` archive `bytes`.
pub fn skill_name_from_zip(bytes: &[u8]) -> (r: Option<String>)
    ensures
        opt_view(r) == zip_skill_name_s(bytes@),
{
    match read_zip_text(bytes, "SKILL.md") {
        ZipText::Text(t) => parse_skill_name(t.as_str()),
        _ => None,
    }
}

/// Why deploying the archive `bytes` (shipped as `filename`) fails before
/// anything is written, or the skill name it deploys under: the archive
/// must open, hold a `SKILL.md` that reads as text, and name the skill.
pub open spec fn zip_deploy_name_s(filename: Seq<char>, bytes: Seq<u8>) -> Result<
    Seq<char>,
    Seq<char>,
> {
    match zip_text_entry(bytes, "SKILL.md"@) {
        ZipTextV::BadArchive(e) => Err("invalid ZIP in "@ + filename + ": "@ + e),
        ZipTextV::Missing => Err(filename + ": no SKILL.md found in ZIP"@),
        ZipTextV::Unreadable(e) => Err(filename + ": read SKILL.md: "@ + e),
        ZipTextV::Text(t) => match skill_header_s(t, "name:"@) {
            Some(n) => Ok(n),
            None => Err(filename + ": no name: field in SKILL.md frontmatter"@),
        },
    }
}

fn join2(a: &str, b: &str) -> (r: String)
    ensures
        r@ == a@ + b@,
{
    let mut s = owned(a);
    s.append(b);
    s
}

fn join3(a: &str, b: &str, c: &str) -> (r: String)
    ensures
        r@ == a@ + b@ + c@,
{
    let mut s = owned(a);
    s.append(b);
    s.append(c);
    s
}

pub fn zip_deploy_name(filename: &str, bytes: &[u8]) -> (r: Result<String, String>)
    ensures
        match r {
            Ok(n) => zip_deploy_name_s(filename@, bytes@) == Ok::<Seq<char>, Seq<char>>(n@),
            Err(e) => zip_deploy_name_s(filename@, bytes@) == Err::<Seq<char>, Seq<char>>(e@),
        },
{
    match read_zip_text(bytes, "SKILL.md") {
        ZipText::BadArchive(e) => {
            let mut m = join3("invalid ZIP in ", filename, ": ");
            m.append(e.as_str());
            Err(m)
        },
        ZipText::Missing => Err(join2(filename, ": no SKILL.md found in ZIP")),
        ZipText::Unreadable(e) => Err(join3(filename, ": read SKILL.md: ", e.as_str())),
        ZipText::Text(t) => match parse_skill_name(t.as_str()) {
            Some(n) => {
                assert(skill_header_s(t@, "name:"@) == Some(n@));
                Ok(n)
            },
            None => Err(join2(filename, ": no name: field in SKILL.md frontmatter")),
        },
    }
}

/// One entry of a ZIP archive: whether it is a directory, its path when it
/// stays inside the extraction directory, and its bytes (or why they could
/// not be read).
pub struct ZipEntry {
    pub is_dir: bool,
    pub path: Option<String>,
    pub content: Result<Vec<u8>, String>,
}

pub struct ZipEntryV {
    pub is_dir: bool,
    pub path: Option<Seq<char>>,
    pub content: Result<Seq<u8>, Seq<char>>,
}

impl View for ZipEntry {
    type V = ZipEntryV;

    open spec fn view(&self) -> ZipEntryV {
        ZipEntryV {
            is_dir: self.is_dir,
            path: opt_view(self.path),
            content: match self.content {
                Ok(b) => Ok(b@),
                Err(e) => Err(e@),
            },
        }
    }
}

/// How many entries the archive `bytes` has, when it opens.
pub uninterp spec fn zip_entry_count_s(bytes: Seq<u8>) -> Option<nat>;

/// The number of entries of the archive (`ZipArchive::new`, `len`).
/// Trusted: named by [`zip_entry_count_s`]; nothing more is claimed.
#[verifier::external_body]
fn zip_len(bytes: &[u8]) -> (r: Option<usize>)
    ensures
        match r {
            Some(n) => zip_entry_count_s(bytes@) == Some(n as nat),
            None => zip_entry_count_s(bytes@) is None,
        },
{
    zip::ZipArchive::new(std::io::Cursor::new(bytes)).ok().map(|a| a.len())
}

/// Entry `i` of the archive `bytes`, or the text of the error that opening
/// the archive or the entry gives.
pub uninterp spec fn zip_entry_s(bytes: Seq<u8>, i: nat) -> Result<ZipEntryV, Seq<char>>;

/// Reads entry `i` (`ZipArchive::new`, `by_index`, `ZipFile::is_dir`,
/// `enclosed_name`, `Read::read_to_end`). Trusted: named by
/// [`zip_entry_s`] on the same bytes and index; nothing more is claimed.
#[verifier::external_body]
fn zip_entry(bytes: &[u8], i: usize) -> (r: Result<ZipEntry, String>)
    ensures
        match r {
            Ok(z) => zip_entry_s(bytes@, i as nat) == Ok::<ZipEntryV, Seq<char>>(z@),
            Err(e) => zip_entry_s(bytes@, i as nat) == Err::<ZipEntryV, Seq<char>>(e@),
        },
{
    let mut archive = zip::ZipArchive::new(std::io::Cursor::new(bytes)).map_err(|e| e.to_string())?;
    let mut file = archive.by_index(i).map_err(|e| e.to_string())?;
    let is_dir = file.is_dir();
    let path = file.enclosed_name().map(|p| p.to_string_lossy().into_owned());
    let mut buf = Vec::new();
    let content = std::io::Read::read_to_end(&mut file, &mut buf).map(|_| buf).map_err(|e| e.to_string());
    Ok(ZipEntry { is_dir, path, content })
}

/// The number of entries of a skill archive, when it opens.
pub fn zip_entry_count(bytes: &[u8]) -> (r: Option<usize>)
    ensures
        match r {
            Some(n) => zip_entry_count_s(bytes@) == Some(n as nat),
            None => zip_entry_count_s(bytes@) is None,
        },
{
    zip_len(bytes)
}

/// Entry `i` of a skill archive.
pub fn zip_entry_at(bytes: &[u8], i: usize) -> (r: Result<ZipEntry, String>)
    ensures
        match r {
            Ok(z) => zip_entry_s(bytes@, i as nat) == Ok::<ZipEntryV, Seq<char>>(z@),
            Err(e) => zip_entry_s(bytes@, i as nat) == Err::<ZipEntryV, Seq<char>>(e@),
        },
{
    zip_entry(bytes, i)
}

/// The first component of a relative path: what comes before the first `/`.
pub open spec fn top_component_s(p: Seq<char>) -> Seq<char> {
    p.take(index_of(p, '/'))
}

/// What extracting one archive entry does.
pub enum ZipStep {
    /// A directory: nothing to write.
    Skip,
    /// Write the entry at `path`; it belongs to `part` of the bundle.
    Extract { path: String, part: BundlePart },
    /// Stop the deploy with this message.
    Fail(String),
}

/// The step for entry `i` of the archive of skill `skill`: an entry that
/// does not read fails with its index, a directory is skipped, an entry
/// whose path would leave the skill directory fails, and any other is
/// extracted, counted under the part its top directory names.
pub open spec fn zip_step_s(skill: Seq<char>, i: nat, e: Result<ZipEntryV, Seq<char>>, r: ZipStep) -> bool {
    match e {
        Err(m) => r matches ZipStep::Fail(f) && f@ == skill + ": zip entry "@ + dec(i) + ": "@ + m,
        Ok(z) => if z.is_dir {
            r is Skip
        } else {
            match z.path {
                None => r matches ZipStep::Fail(f) && f@ == skill + ": unsafe path in ZIP"@,
                Some(p) => r matches ZipStep::Extract { path, part } && path@ == p && part
                    == bundle_part_s(top_component_s(p)),
            }
        },
    }
}

pub fn zip_step(skill: &str, i: usize, entry: &Result<ZipEntry, String>) -> (r: ZipStep)
    ensures
        zip_step_s(
            skill@,
            i as nat,
            match entry {
                Ok(z) => Ok::<ZipEntryV, Seq<char>>(z@),
                Err(e) => Err::<ZipEntryV, Seq<char>>(e@),
            },
            r,
        ),
{
    match entry {
        Err(m) => {
            let mut f = join3(skill, ": zip entry ", usize_to_string(i).as_str());
            f.append(": ");
            f.append(m.as_str());
            ZipStep::Fail(f)
        },
        Ok(z) => {
            if z.is_dir {
                return ZipStep::Skip;
            }
            match &z.path {
                None => ZipStep::Fail(join2(skill, ": unsafe path in ZIP")),
                Some(p) => {
                    let v = chars_of(p.as_str());
                    let k = find_char(&v, '/');
                    proof {
                        lemma_index_of_bounds(v@, '/');
                    }
                    let top = string_of(&subvec(&v, 0, k));
                    assert(top@ =~= top_component_s(p@));
                    ZipStep::Extract { path: p.clone(), part: bundle_part(top.as_str()) }
                },
            }
        },
    }
}

/// How many of `parts` are `p`.
pub open spec fn part_count_s(parts: Seq<BundlePart>, p: BundlePart) -> nat
    decreases parts.len(),
{
    if parts.len() == 0 {
        0
    } else {
        part_count_s(parts.drop_last(), p) + if parts.last() == p {
            1nat
        } else {
            0nat
        }
    }
}

/// The references, scripts and examples among the parts of the files
/// written.
pub fn part_counts(parts: &Vec<BundlePart>) -> (r: (usize, usize, usize))
    ensures
        r.0 == part_count_s(parts@, BundlePart::Reference),
        r.1 == part_count_s(parts@, BundlePart::Script),
        r.2 == part_count_s(parts@, BundlePart::Example),
{
    let (mut a, mut b, mut c): (usize, usize, usize) = (0, 0, 0);
    let mut i: usize = 0;
    while i < parts.len()
        invariant
            i <= parts.len(),
            a == part_count_s(parts@.take(i as int), BundlePart::Reference),
            b == part_count_s(parts@.take(i as int), BundlePart::Script),
            c == part_count_s(parts@.take(i as int), BundlePart::Example),
            a + b + c <= i,
        decreases parts.len() - i,
    {
        assert(parts@.take(i + 1).drop_last() =~= parts@.take(i as int));
        match parts[i] {
            BundlePart::Reference => a += 1,
            BundlePart::Script => b += 1,
            BundlePart::Example => c += 1,
            BundlePart::Other => {},
        }
        i += 1;
    }
    assert(parts@.take(parts.len() as int) =~= parts@);
    (a, b, c)
}

/// What a built-in skill is shipped as: a plain `SKILL.md`, or a `.skill`
/// ZIP archive.
pub enum SkillSource {
    Plain(String),
    Zip(Vec<u8>),
}

/// The name a skill bundle declares: the `name:` of its `SKILL.md`.
pub fn skill_name_from_bundle(source: &SkillSource) -> (r: Option<String>)
    ensures
        opt_view(r) == match source {
            SkillSource::Plain(content) => skill_header_s(content@, "name:"@),
            SkillSource::Zip(bytes) => zip_skill_name_s(bytes@),
        },
{
    match source {
        SkillSource::Plain(content) => parse_skill_name(content.as_str()),
        SkillSource::Zip(bytes) => skill_name_from_zip(bytes.as_slice()),
    }
}

/// Where a file of a skill bundle goes, by its top directory.
#[derive(Clone, Copy, PartialEq, Eq, Structural, Debug)]
pub enum BundlePart {
    Reference,
    Script,
    Example,
    Other,
}

pub open spec fn bundle_part_s(top: Seq<char>) -> BundlePart {
    if top == "references"@ {
        BundlePart::Reference
    } else if top == "scripts"@ {
        BundlePart::Script
    } else if top == "examples"@ {
        BundlePart::Example
    } else {
        BundlePart::Other
    }
}

/// The part of a bundle that a file whose path starts with `top` belongs to.
pub fn bundle_part(top: &str) -> (r: BundlePart)
    ensures
        r == bundle_part_s(top@),
{
    let t = chars_of(top);
    if seq_eq(&t, &chars_of("references")) {
        BundlePart::Reference
    } else if seq_eq(&t, &chars_of("scripts")) {
        BundlePart::Script
    } else if seq_eq(&t, &chars_of("examples")) {
        BundlePart::Example
    } else {
        BundlePart::Other
    }
}

// ── Order by name ───────────────────────────────────────────────────

/// The name of an entry: the key entries are ordered by.
pub open spec fn entry_name() -> spec_fn(EntryV) -> Seq<char> {
    |e: EntryV| e.name
}

/// `s` stably sorted by name.
pub open spec fn sort_entries_s(s: Seq<EntryV>) -> Seq<EntryV> {
    sort_by_key_s(s, entry_name())
}

/// Sorts entries by name, keeping the order of entries with the same name.
pub fn sort_entries(v: Vec<SkillEntry>) -> (r: Vec<SkillEntry>)
    ensures
        entry_views(r@) == sort_entries_s(entry_views(v@)),
{
    let ghost input = entry_views(v@);
    let mut v = v;
    let mut i: usize = 0;
    assert(input.take(0) =~= sort_entries_s(input.take(0)));
    assert(entry_views(v@).take(0) =~= input.take(0));
    while i < v.len()
        invariant
            i <= v.len(),
            v.len() == input.len(),
            entry_views(v@).take(i as int) == sort_entries_s(input.take(i as int)),
            entry_views(v@).skip(i as int) == input.skip(i as int),
        decreases v.len() - i,
    {
        let ghost before = entry_views(v@);
        let ghost sorted = before.take(i as int);
        let x = v.remove(i);
        assert(x@ == input[i as int]) by {
            assert(before.skip(i as int)[0] == before[i as int]);
            assert(input.skip(i as int)[0] == input[i as int]);
        }
        assert(entry_views(v@) =~= before.remove(i as int));
        assert(entry_views(v@).take(i as int) =~= sorted);
        let xn = chars_of(x.name.as_str());
        let mut k: usize = 0;
        loop
            invariant
                k <= i,
                i < v.len() + 1,
                xn@ == x@.name,
                entry_views(v@).take(i as int) == sorted,
                forall|j: int| 0 <= j < k ==> !seq_lt(x@.name, #[trigger] sorted[j].name),
            ensures
                k <= i,
                forall|j: int| 0 <= j < k ==> !seq_lt(x@.name, #[trigger] sorted[j].name),
                k < i ==> seq_lt(x@.name, sorted[k as int].name),
            decreases i - k,
        {
            if k >= i {
                break;
            }
            assert(sorted[k as int] == v@[k as int]@) by {
                assert(entry_views(v@).take(i as int)[k as int] == entry_views(v@)[k as int]);
            }
            if str_lt(&xn, &chars_of(v[k].name.as_str())) {
                break;
            }
            k += 1;
        }
        proof {
            lemma_key_insert_pos(sorted, x@, entry_name(), k as int);
            assert(input.take(i + 1).drop_last() =~= input.take(i as int));
            assert(input.take(i + 1).last() == input[i as int]);
        }
        let ghost mid = entry_views(v@);
        v.insert(k, x);
        assert(entry_views(v@) =~= mid.insert(k as int, x@));
        assert(entry_views(v@).take(i + 1) =~= sorted.insert(k as int, x@));
        assert(entry_views(v@).skip(i + 1) =~= input.skip(i + 1)) by {
            assert forall|j: int| 0 <= j < input.len() - (i + 1) implies #[trigger] entry_views(
                v@,
            ).skip(i + 1)[j] == input.skip(i + 1)[j] by {
                assert(entry_views(v@)[i + 1 + j] == mid[i + j]);
                assert(mid[i + j] == before[i + 1 + j]);
                assert(before.skip(i as int)[j + 1] == input.skip(i as int)[j + 1]);
            }
        }
        i += 1;
    }
    assert(input.take(v.len() as int) =~= input);
    assert(entry_views(v@).take(v.len() as int) =~= entry_views(v@));
    v
}

// ── Scan and sync ───────────────────────────────────────────────────

/// The entry for a skill found installed on disk: its directory name, no
/// source yet, the project scope, and its description.
pub open spec fn installed_entry_s(name: Seq<char>, description: Option<Seq<char>>) -> EntryV {
    EntryV {
        name,
        source: Seq::empty(),
        skill: None,
        agents: seq![],
        scope: "project"@,
        description,
    }
}

/// The entry for a skill installed in the directory `name`.
pub fn installed_entry(name: String, description: Option<String>) -> (r: SkillEntry)
    ensures
        r@ == installed_entry_s(name@, opt_view(description)),
{
    let r = SkillEntry {
        name,
        source: String::new(),
        skill: None,
        agents: Vec::new(),
        scope: default_scope(),
        description,
    };
    assert(r@.agents =~= seq![]);
    r
}

/// The last entry named `n` (a later declaration wins).
pub open spec fn last_named(es: Seq<EntryV>, n: Seq<char>) -> Option<EntryV>
    decreases es.len(),
{
    if es.len() == 0 {
        None
    } else if es.last().name == n {
        Some(es.last())
    } else {
        last_named(es.drop_last(), n)
    }
}

/// A declared entry, given the installed description when it has none.
pub open spec fn refresh_description(e: EntryV, on_disk: EntryV) -> EntryV {
    if e.description is None || e.description == Some(Seq::<char>::empty()) {
        EntryV { description: on_disk.description, ..e }
    } else {
        e
    }
}

/// The entry sync writes for an installed skill: its declaration if there
/// is one (refreshed), else the installed entry itself.
pub open spec fn synced_entry(existing: Seq<EntryV>, on_disk: EntryV) -> EntryV {
    match last_named(existing, on_disk.name) {
        Some(e) => refresh_description(e, on_disk),
        None => on_disk,
    }
}

pub open spec fn synced_all(existing: Seq<EntryV>, installed: Seq<EntryV>) -> Seq<EntryV> {
    Seq::new(installed.len(), |i: int| synced_entry(existing, installed[i]))
}

/// How many installed skills are already declared.
pub open spec fn kept_count(existing: Seq<EntryV>, installed: Seq<EntryV>) -> nat
    decreases installed.len(),
{
    if installed.len() == 0 {
        0
    } else {
        kept_count(existing, installed.drop_last()) + if last_named(
            existing,
            installed.last().name,
        ) is Some {
            1nat
        } else {
            0nat
        }
    }
}

/// Whether a skill named `n` is installed.
pub open spec fn is_installed(installed: Seq<EntryV>, n: Seq<char>) -> bool {
    exists|i: int| 0 <= i < installed.len() && (#[trigger] installed[i]).name == n
}

/// The names of declared entries that are no longer installed, in order.
pub open spec fn gone_names(existing: Seq<EntryV>, installed: Seq<EntryV>) -> Seq<Seq<char>>
    decreases existing.len(),
{
    if existing.len() == 0 {
        seq![]
    } else {
        let rest = gone_names(existing.drop_last(), installed);
        if is_installed(installed, existing.last().name) {
            rest
        } else {
            rest.push(existing.last().name)
        }
    }
}

/// The names of the entries with an empty source, in order.
pub open spec fn empty_source_names(es: Seq<EntryV>) -> Seq<Seq<char>>
    decreases es.len(),
{
    if es.len() == 0 {
        seq![]
    } else {
        let rest = empty_source_names(es.drop_last());
        if es.last().source.len() == 0 {
            rest.push(es.last().name)
        } else {
            rest
        }
    }
}

proof fn lemma_last_named(es: Seq<EntryV>, n: Seq<char>)
    ensures
        match last_named(es, n) {
            Some(e) => e.name == n && es.contains(e),
            None => forall|i: int| 0 <= i < es.len() ==> (#[trigger] es[i]).name != n,
        },
    decreases es.len(),
{
    if es.len() > 0 {
        lemma_last_named(es.drop_last(), n);
        if es.last().name == n {
            assert(es[es.len() - 1] == es.last());
        } else {
            match last_named(es.drop_last(), n) {
                Some(e) => {
                    let k = choose|k: int| 0 <= k < es.drop_last().len() && es.drop_last()[k] == e;
                    assert(es[k] == e);
                },
                None => {
                    assert forall|i: int| 0 <= i < es.len() implies (#[trigger] es[i]).name != n by {
                        if i < es.len() - 1 {
                            assert(es[i] == es.drop_last()[i]);
                        }
                    }
                },
            }
        }
    }
}

/// When a skill is declared more than once, the last declaration is the one
/// that counts; when it is not declared, no entry has its name.
pub proof fn law_last_declaration_wins(es: Seq<EntryV>, n: Seq<char>)
    ensures
        match last_named(es, n) {
            Some(d) => exists|k: int|
                0 <= k < es.len() && es[k] == d && d.name == n && forall|m: int|
                    k < m < es.len() ==> (#[trigger] es[m]).name != n,
            None => forall|i: int| 0 <= i < es.len() ==> (#[trigger] es[i]).name != n,
        },
    decreases es.len(),
{
    if es.len() > 0 {
        law_last_declaration_wins(es.drop_last(), n);
        let k0 = es.len() - 1;
        if es.last().name == n {
            assert(es[k0] == es.last());
            assert(forall|m: int| k0 < m < es.len() ==> (#[trigger] es[m]).name != n);
        } else {
            match last_named(es.drop_last(), n) {
                Some(d) => {
                    let k = choose|k: int|
                        0 <= k < es.drop_last().len() && es.drop_last()[k] == d && d.name == n
                            && forall|m: int|
                            k < m < es.drop_last().len() ==> (#[trigger] es.drop_last()[m]).name
                                != n;
                    assert(es[k] == d);
                    assert forall|m: int| k < m < es.len() implies (#[trigger] es[m]).name != n by {
                        if m < k0 {
                            assert(es[m] == es.drop_last()[m]);
                        } else {
                            assert(es[m] == es.last());
                        }
                    }
                },
                None => {
                    assert forall|i: int| 0 <= i < es.len() implies (#[trigger] es[i]).name != n by {
                        if i < k0 {
                            assert(es[i] == es.drop_last()[i]);
                        } else {
                            assert(es[i] == es.last());
                        }
                    }
                },
            }
        }
    }
}

/// Sync writes one entry per installed skill, named as the skill, sorted by
/// name. An installed skill that was declared keeps its declaration (its
/// source, skill, agents and scope, and its description unless that is
/// missing or empty, when the installed one is taken); one that was not is
/// written as found.
pub proof fn law_sync_one_entry_per_installed(existing: Seq<EntryV>, installed: Seq<EntryV>)
    ensures
        sort_entries_s(synced_all(existing, installed)).len() == installed.len(),
        ordered_by_key(sort_entries_s(synced_all(existing, installed)), entry_name()),
        forall|i: int|
            0 <= i < installed.len() ==> sort_entries_s(synced_all(existing, installed)).contains(
                synced_entry(existing, #[trigger] installed[i]),
            ),
        forall|e: EntryV|
            #[trigger] sort_entries_s(synced_all(existing, installed)).contains(e) ==> exists|i: int|
                0 <= i < installed.len() && e == synced_entry(existing, #[trigger] installed[i]),
        forall|i: int|
            0 <= i < installed.len() ==> (#[trigger] synced_entry(existing, installed[i])).name
                == installed[i].name,
        forall|i: int|
            0 <= i < installed.len() && !is_installed(existing, installed[i].name) ==> #[trigger] synced_entry(
                existing,
                installed[i],
            ) == installed[i],
        forall|i: int|
            0 <= i < installed.len() ==> match last_named(existing, installed[i].name) {
                Some(d) => {
                    let e = #[trigger] synced_entry(existing, installed[i]);
                    &&& e.source == d.source
                    &&& e.skill == d.skill
                    &&& e.agents == d.agents
                    &&& e.scope == d.scope
                    &&& e.description == if d.description is None || d.description == Some(
                        Seq::<char>::empty(),
                    ) {
                        installed[i].description
                    } else {
                        d.description
                    }
                },
                None => true,
            },
{
    let s = synced_all(existing, installed);
    let m = sort_entries_s(s);
    law_sort_by_key(s, entry_name());
    assert forall|e: EntryV| m.contains(e) <==> s.contains(e) by {
        vstd::seq_lib::to_multiset_contains(m, e);
        vstd::seq_lib::to_multiset_contains(s, e);
    }
    assert forall|i: int| 0 <= i < installed.len() implies m.contains(
        synced_entry(existing, #[trigger] installed[i]),
    ) by {
        assert(s[i] == synced_entry(existing, installed[i]));
    }
    assert forall|e: EntryV| #[trigger] m.contains(e) implies exists|i: int|
        0 <= i < installed.len() && e == synced_entry(existing, #[trigger] installed[i]) by {
        let j = choose|j: int| 0 <= j < s.len() && s[j] == e;
        assert(s[j] == synced_entry(existing, installed[j]));
    }
    assert forall|i: int| 0 <= i < installed.len() implies (#[trigger] synced_entry(
        existing,
        installed[i],
    )).name == installed[i].name by {
        lemma_last_named(existing, installed[i].name);
    }
    assert forall|i: int|
        0 <= i < installed.len() && !is_installed(existing, installed[i].name) implies #[trigger] synced_entry(
        existing,
        installed[i],
    ) == installed[i] by {
        lemma_last_named(existing, installed[i].name);
        if last_named(existing, installed[i].name) is Some {
            let e = last_named(existing, installed[i].name).unwrap();
            let k = choose|k: int| 0 <= k < existing.len() && existing[k] == e;
            assert(existing[k].name == installed[i].name);
        }
    }
}

/// What `skills sync` writes and reports.
pub struct SyncResult {
    /// The new manifest entries, sorted by name.
    pub merged: Vec<SkillEntry>,
    /// Installed skills that were already declared.
    pub kept: usize,
    /// Installed skills that were not declared.
    pub added: usize,
    /// Declared skills that are no longer installed.
    pub removed: Vec<String>,
    /// Merged entries without a source.
    pub empty_sources: Vec<String>,
}

fn find_last_named(es: &Vec<SkillEntry>, name: &String) -> (r: Option<usize>)
    ensures
        match r {
            Some(k) => k < es.len() && last_named(entry_views(es@), name@) == Some(es@[k as int]@),
            None => last_named(entry_views(es@), name@) is None,
        },
{
    let ghost ev = entry_views(es@);
    let n = chars_of(name.as_str());
    let mut i = es.len();
    assert(ev.take(i as int) =~= ev);
    while i > 0
        invariant
            i <= es.len(),
            ev == entry_views(es@),
            n@ == name@,
            last_named(ev, name@) == last_named(ev.take(i as int), name@),
        decreases i,
    {
        assert(ev.take(i as int).drop_last() =~= ev.take(i - 1));
        assert(ev.take(i as int).last() == es@[i - 1]@);
        if seq_eq(&chars_of(es[i - 1].name.as_str()), &n) {
            return Some(i - 1);
        }
        i -= 1;
    }
    None
}

pub fn installed_named(installed: &Vec<SkillEntry>, name: &String) -> (r: bool)
    ensures
        r == is_installed(entry_views(installed@), name@),
{
    let ghost iv = entry_views(installed@);
    let n = chars_of(name.as_str());
    let mut i: usize = 0;
    while i < installed.len()
        invariant
            i <= installed.len(),
            iv == entry_views(installed@),
            n@ == name@,
            forall|j: int| 0 <= j < i ==> (#[trigger] iv[j]).name != name@,
        decreases installed.len() - i,
    {
        assert(iv[i as int] == installed@[i as int]@);
        if seq_eq(&chars_of(installed[i].name.as_str()), &n) {
            return true;
        }
        i += 1;
    }
    false
}

/// Names of the entries that have no source.
pub fn empty_sources(es: &Vec<SkillEntry>) -> (r: Vec<String>)
    ensures
        strings_view(r@) == empty_source_names(entry_views(es@)),
{
    let ghost ev = entry_views(es@);
    let mut out: Vec<String> = Vec::new();
    let mut i: usize = 0;
    while i < es.len()
        invariant
            i <= es.len(),
            ev == entry_views(es@),
            strings_view(out@) == empty_source_names(ev.take(i as int)),
        decreases es.len() - i,
    {
        assert(ev.take(i + 1).drop_last() =~= ev.take(i as int));
        assert(ev.take(i + 1).last() == es@[i as int]@);
        if es[i].source.as_str().is_empty() {
            let ghost b = strings_view(out@);
            out.push(es[i].name.clone());
            assert(strings_view(out@) =~= b.push(es@[i as int].name@));
        }
        i += 1;
    }
    assert(ev.take(es.len() as int) =~= ev);
    out
}

/// Merges the installed skills into the declared ones (`skills sync`): each
/// installed skill keeps its declaration (the last one of its name, given
/// the installed description when it has none) or is added as found; the
/// result is sorted by name. Declared skills that are not installed are
/// reported as removed.
pub fn sync_skills(installed: &Vec<SkillEntry>, existing: &Vec<SkillEntry>) -> (r: SyncResult)
    ensures
        entry_views(r.merged@) == sort_entries_s(
            synced_all(entry_views(existing@), entry_views(installed@)),
        ),
        r.kept == kept_count(entry_views(existing@), entry_views(installed@)),
        r.kept + r.added == installed.len(),
        strings_view(r.removed@) == gone_names(entry_views(existing@), entry_views(installed@)),
        strings_view(r.empty_sources@) == empty_source_names(entry_views(r.merged@)),
{
    let ghost ev = entry_views(existing@);
    let ghost iv = entry_views(installed@);
    let mut merged: Vec<SkillEntry> = Vec::new();
    let mut kept: usize = 0;
    let mut added: usize = 0;
    let mut i: usize = 0;
    while i < installed.len()
        invariant
            i <= installed.len(),
            ev == entry_views(existing@),
            iv == entry_views(installed@),
            entry_views(merged@) == synced_all(ev, iv.take(i as int)),
            kept == kept_count(ev, iv.take(i as int)),
            kept + added == i,
        decreases installed.len() - i,
    {
        assert(iv.take(i + 1).drop_last() =~= iv.take(i as int));
        assert(iv.take(i + 1).last() == installed@[i as int]@);
        let on_disk = &installed[i];
        let ghost b = entry_views(merged@);
        match find_last_named(existing, &on_disk.name) {
            Some(k) => {
                let mut e = copy_entry(&existing[k]);
                let empty = match &e.description {
                    None => true,
                    Some(d) => {
                        let b = d.as_str().is_empty();
                        proof {
                            if b {
                                assert(d@ =~= Seq::<char>::empty());
                            }
                        }
                        b
                    },
                };
                if empty {
                    e.description = copy_opt(&on_disk.description);
                }
                assert(e@ == synced_entry(ev, on_disk@));
                merged.push(e);
                assert(entry_views(merged@) =~= b.push(synced_entry(ev, on_disk@)));
                kept += 1;
            },
            None => {
                merged.push(copy_entry(on_disk));
                assert(entry_views(merged@) =~= b.push(synced_entry(ev, on_disk@)));
                added += 1;
            },
        }
        assert(entry_views(merged@) =~= synced_all(ev, iv.take(i + 1)));
        i += 1;
    }
    assert(iv.take(installed.len() as int) =~= iv);
    let mut removed: Vec<String> = Vec::new();
    let mut j: usize = 0;
    while j < existing.len()
        invariant
            j <= existing.len(),
            ev == entry_views(existing@),
            iv == entry_views(installed@),
            strings_view(removed@) == gone_names(ev.take(j as int), iv),
        decreases existing.len() - j,
    {
        assert(ev.take(j + 1).drop_last() =~= ev.take(j as int));
        assert(ev.take(j + 1).last() == existing@[j as int]@);
        if !installed_named(installed, &existing[j].name) {
            let ghost b = strings_view(removed@);
            removed.push(existing[j].name.clone());
            assert(strings_view(removed@) =~= b.push(existing@[j as int].name@));
        }
        j += 1;
    }
    assert(ev.take(existing.len() as int) =~= ev);
    let merged = sort_entries(merged);
    let empty_sources = empty_sources(&merged);
    SyncResult { merged, kept, added, removed, empty_sources }
}

// ── check ───────────────────────────────────────────────────────────

/// One line of `skills check`.
pub struct CheckItem {
    pub name: String,
    pub installed: bool,
    pub description: Option<String>,
    /// How to install it, when it is missing and has a source.
    pub install_command: Option<String>,
    /// Why it is flagged, when it is missing.
    pub message: Option<String>,
}

/// The message of a missing skill: whether it can be installed as declared.
pub open spec fn missing_message_s(e: EntryV) -> Seq<char> {
    if install_cmd_s(e) is Some {
        "not installed"@
    } else {
        "fill in 'source' in .repo/skills.toml to enable install"@
    }
}

/// The check result for a declared skill, given whether its `SKILL.md`
/// is present.
pub fn check_item(entry: &SkillEntry, installed: bool) -> (r: CheckItem)
    ensures
        r.name@ == entry.name@,
        r.installed == installed,
        opt_view(r.description) == entry@.description,
        installed ==> r.install_command is None && r.message is None,
        !installed ==> opt_view(r.install_command) == install_cmd_s(entry@) && opt_view(r.message)
            == Some(missing_message_s(entry@)),
{
    if installed {
        return CheckItem {
            name: entry.name.clone(),
            installed: true,
            description: copy_opt(&entry.description),
            install_command: None,
            message: None,
        };
    }
    let install_command = build_install_cmd(entry);
    let message = if install_command.is_some() {
        owned("not installed")
    } else {
        owned("fill in 'source' in .repo/skills.toml to enable install")
    };
    CheckItem {
        name: entry.name.clone(),
        installed: false,
        description: copy_opt(&entry.description),
        install_command,
        message: Some(message),
    }
}

// ── install and fix ─────────────────────────────────────────────────

/// How a run of the install command ended.
pub enum RunResult {
    /// It exited successfully.
    Succeeded,
    /// It exited with a failure status.
    Exited { stdout: String, stderr: String, status: String },
    /// It could not be started.
    NotRun { message: String },
}

/// The outcome of installing one skill.
pub enum InstallOutcome {
    Installed,
    NoSource,
    NotFound { source: String },
    Failed { exit_status: String },
    Error { message: String },
}

/// What the installer prints when the source has no such skill.
pub open spec fn not_found_marker() -> Seq<char> {
    "No matching skills found"@
}

/// The outcome of a run of an entry's install command: success; a failure
/// whose output (stdout, a newline, stderr) says the skill was not found at
/// the source; another failure; or no run at all.
pub open spec fn run_outcome_ok(e: EntryV, run: RunResult, out: InstallOutcome) -> bool {
    match run {
        RunResult::Succeeded => out is Installed,
        RunResult::Exited { stdout, stderr, status } => if find_s(
            stdout@ + "\n"@ + stderr@,
            not_found_marker(),
        ) is Some {
            out matches InstallOutcome::NotFound { source } && source@ == e.source
        } else {
            out matches InstallOutcome::Failed { exit_status } && exit_status@ == status@
        },
        RunResult::NotRun { message } => out matches InstallOutcome::Error { message: m } && m@
            == message@,
    }
}

/// Classifies a run of the install command of `entry`.
pub fn outcome_of_run(entry: &SkillEntry, run: RunResult) -> (r: InstallOutcome)
    ensures
        run_outcome_ok(entry@, run, r),
{
    match run {
        RunResult::Succeeded => InstallOutcome::Installed,
        RunResult::Exited { stdout, stderr, status } => {
            let mut combined = stdout.clone();
            combined.append("\n");
            combined.append(stderr.as_str());
            let marker = chars_of("No matching skills found");
            if find(&chars_of(combined.as_str()), &marker).is_some() {
                InstallOutcome::NotFound { source: entry.source.clone() }
            } else {
                InstallOutcome::Failed { exit_status: status }
            }
        },
        RunResult::NotRun { message } => InstallOutcome::Error { message },
    }
}

/// One line of the `skills install` report.
pub struct InstallItem {
    pub name: String,
    pub outcome: String,
    pub source: Option<String>,
    pub message: Option<String>,
}

/// The report line of an install outcome.
pub open spec fn install_item_ok(e: EntryV, o: InstallOutcome, it: InstallItem) -> bool {
    &&& it.name@ == e.name
    &&& match o {
        InstallOutcome::Installed => it.outcome@ == "installed"@ && opt_view(it.source) == Some(
            e.source,
        ) && it.message is None,
        InstallOutcome::NoSource => it.outcome@ == "no_source"@ && it.source is None && opt_view(
            it.message,
        ) == Some("set 'source' in .repo/skills.toml"@),
        InstallOutcome::NotFound { source } => it.outcome@ == "not_found"@ && opt_view(it.source)
            == Some(source@) && opt_view(it.message) == Some("skill not found in "@ + source@),
        InstallOutcome::Failed { exit_status } => it.outcome@ == "failed"@ && opt_view(it.source)
            == Some(e.source) && opt_view(it.message) == Some(
            "install failed ("@ + exit_status@ + ")"@,
        ),
        InstallOutcome::Error { message } => it.outcome@ == "error"@ && opt_view(it.source)
            == Some(e.source) && opt_view(it.message) == Some(
            "could not run install: "@ + message@,
        ),
    }
}

fn joined(a: &str, b: &str, c: &str) -> (r: String)
    ensures
        r@ == a@ + b@ + c@,
{
    let mut s = owned(a);
    s.append(b);
    s.append(c);
    s
}

/// The report line for `entry` with outcome `outcome`.
pub fn install_item(entry: &SkillEntry, outcome: &InstallOutcome) -> (r: InstallItem)
    ensures
        install_item_ok(entry@, *outcome, r),
{
    proof {
        reveal_strlit("");
    }
    let name = entry.name.clone();
    match outcome {
        InstallOutcome::Installed => InstallItem {
            name,
            outcome: owned("installed"),
            source: Some(entry.source.clone()),
            message: None,
        },
        InstallOutcome::NoSource => InstallItem {
            name,
            outcome: owned("no_source"),
            source: None,
            message: Some(owned("set 'source' in .repo/skills.toml")),
        },
        InstallOutcome::NotFound { source } => {
            let m = joined("skill not found in ", source.as_str(), "");
            assert(m@ =~= "skill not found in "@ + source@);
            InstallItem {
                name,
                outcome: owned("not_found"),
                source: Some(source.clone()),
                message: Some(m),
            }
        },
        InstallOutcome::Failed { exit_status } => InstallItem {
            name,
            outcome: owned("failed"),
            source: Some(entry.source.clone()),
            message: Some(joined("install failed (", exit_status.as_str(), ")")),
        },
        InstallOutcome::Error { message } => {
            let m = joined("could not run install: ", message.as_str(), "");
            assert(m@ =~= "could not run install: "@ + message@);
            InstallItem {
                name,
                outcome: owned("error"),
                source: Some(entry.source.clone()),
                message: Some(m),
            }
        },
    }
}

/// Whether the entry cannot be installed as declared and `skills fix`
/// would remove it.
pub open spec fn needs_fix_s(o: InstallOutcome) -> bool {
    o is NoSource || o is NotFound
}

pub fn needs_fix(outcome: &InstallOutcome) -> (r: bool)
    ensures
        r == needs_fix_s(*outcome),
{
    match outcome {
        InstallOutcome::NoSource | InstallOutcome::NotFound { .. } => true,
        _ => false,
    }
}

/// Why `skills fix` removes an entry with this outcome; none when it keeps
/// the entry (installed, or a failure that may be transient).
pub open spec fn fix_reason_s(o: InstallOutcome) -> Option<Seq<char>> {
    match o {
        InstallOutcome::NoSource => Some("no source"@),
        InstallOutcome::NotFound { .. } => Some("skill not found at source"@),
        _ => None,
    }
}

pub fn fix_reason(outcome: &InstallOutcome) -> (r: Option<&'static str>)
    ensures
        match r {
            Some(s) => fix_reason_s(*outcome) == Some(s@),
            None => fix_reason_s(*outcome) is None,
        },
{
    match outcome {
        InstallOutcome::NoSource => Some("no source"),
        InstallOutcome::NotFound { .. } => Some("skill not found at source"),
        _ => None,
    }
}

/// What `skills install` flags for `skills fix` is exactly what `fix`
/// removes: an outcome needs a fix if and only if fix gives a reason to
/// remove the entry, and the entries fix keeps (installed, or failed in a
/// way that may pass later) are never flagged.
pub proof fn law_fix_removes_what_install_flags(o: InstallOutcome)
    ensures
        needs_fix_s(o) <==> fix_reason_s(o) is Some,
        (o is Installed || o is Failed || o is Error) ==> !needs_fix_s(o),
{
}

/// An entry can be installed as declared exactly when it names a source:
/// `check` offers an install command, and `fix` probes it, for the same
/// entries; `install` reports the others as having no source.
pub proof fn law_install_command_iff_source(e: EntryV)
    ensures
        install_cmd_s(e) is Some <==> e.source.len() > 0,
        install_cmd_s(e) is None ==> missing_message_s(e)
            == "fill in 'source' in .repo/skills.toml to enable install"@,
        install_cmd_s(e) is Some ==> missing_message_s(e) == "not installed"@,
{
}

// ── Dispatch ────────────────────────────────────────────────────────

/// What `repo skills <args>` does.
pub enum SkillsAction {
    Help,
    Init,
    Export { json: bool },
    Sync { json: bool },
    Install { json: bool },
    Fix { json: bool },
    Deploy { force: bool },
    Unknown(String),
    Check { json: bool },
}

/// The dispatch of `skills`: help wins; a first argument that is not a flag
/// names the subcommand; without one the manifest is checked.
pub open spec fn skills_action_ok(args: Seq<Seq<char>>, act: SkillsAction) -> bool {
    let json = has_arg(args, "--json"@);
    if wants_help_s(args) {
        act is Help
    } else if args.len() == 0 || is_flag(args[0]) {
        act == SkillsAction::Check { json }
    } else {
        let sub = args[0];
        if sub == "init"@ {
            act is Init
        } else if sub == "export"@ {
            act == SkillsAction::Export { json }
        } else if sub == "sync"@ {
            act == SkillsAction::Sync { json }
        } else if sub == "install"@ {
            act == SkillsAction::Install { json }
        } else if sub == "fix"@ {
            act == SkillsAction::Fix { json }
        } else if sub == "deploy"@ {
            act == SkillsAction::Deploy { force: wants_force_s(args) }
        } else {
            act matches SkillsAction::Unknown(s) && s@ == sub
        }
    }
}

/// Decides what `skills <args>` does (see [`skills_action_ok`]).
pub fn plan_skills_run(args: &[&str]) -> (r: SkillsAction)
    ensures
        skills_action_ok(arg_views(args@), r),
{
    let ghost av = arg_views(args@);
    if crate::args::wants_help(args) {
        return SkillsAction::Help;
    }
    let json = contains_arg(args, "--json");
    if args.len() == 0 || starts_with_dash(args[0]) {
        return SkillsAction::Check { json };
    }
    assert(av[0] == args@[0]@);
    let sub = chars_of(args[0]);
    if seq_eq(&sub, &chars_of("init")) {
        SkillsAction::Init
    } else if seq_eq(&sub, &chars_of("export")) {
        SkillsAction::Export { json }
    } else if seq_eq(&sub, &chars_of("sync")) {
        SkillsAction::Sync { json }
    } else if seq_eq(&sub, &chars_of("install")) {
        SkillsAction::Install { json }
    } else if seq_eq(&sub, &chars_of("fix")) {
        SkillsAction::Fix { json }
    } else if seq_eq(&sub, &chars_of("deploy")) {
        SkillsAction::Deploy { force: wants_force(args) }
    } else {
        SkillsAction::Unknown(owned(args[0]))
    }
}

} // verus!
