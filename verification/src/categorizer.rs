//! Routing of the lines of a wiki page into five semantic buckets.
use vstd::prelude::*;
use crate::strops::{lines, lines_str, trim, trim_char, trim_char_exec, trim_exec};
use crate::text::{
    append, chars_of, contains, contains_str, ends_with, ends_with_str, starts_with,
    starts_with_str, to_strings, views,
};

verus! {

/// The five buckets.
#[derive(PartialEq, Eq, Structural, Clone, Copy, Debug)]
pub enum Bucket {
    Basic,
    Combat,
    Build,
    Lore,
    Gallery,
}

/// The lines of a page, sorted by meaning.
pub struct WikiBlocks {
    /// Basic operator information.
    pub basic: Vec<String>,
    /// Combat data: attributes, talents, skills, modules, summons.
    pub combat: Vec<String>,
    /// Base skills and promotion materials.
    pub build: Vec<String>,
    /// Archive texts.
    pub lore: Vec<String>,
    /// Outfits and artwork.
    pub gallery: Vec<String>,
}

/// The contents of the five buckets.
#[verifier::ext_equal]
pub struct BlocksView {
    pub basic: Seq<Seq<char>>,
    pub combat: Seq<Seq<char>>,
    pub build: Seq<Seq<char>>,
    pub lore: Seq<Seq<char>>,
    pub gallery: Seq<Seq<char>>,
}

impl WikiBlocks {
    pub open spec fn view_blocks(&self) -> BlocksView {
        BlocksView {
            basic: self.basic.deep_view(),
            combat: self.combat.deep_view(),
            build: self.build.deep_view(),
            lore: self.lore.deep_view(),
            gallery: self.gallery.deep_view(),
        }
    }
}

pub open spec fn empty_blocks() -> BlocksView {
    BlocksView {
        basic: Seq::empty(),
        combat: Seq::empty(),
        build: Seq::empty(),
        lore: Seq::empty(),
        gallery: Seq::empty(),
    }
}

/// `line` appended to bucket `b`.
pub open spec fn pushed(bl: BlocksView, b: Bucket, line: Seq<char>) -> BlocksView {
    match b {
        Bucket::Combat => BlocksView { combat: bl.combat.push(line), ..bl },
        Bucket::Build => BlocksView { build: bl.build.push(line), ..bl },
        Bucket::Lore => BlocksView { lore: bl.lore.push(line), ..bl },
        Bucket::Gallery => BlocksView { gallery: bl.gallery.push(line), ..bl },
        Bucket::Basic => BlocksView { basic: bl.basic.push(line), ..bl },
    }
}

/// Navigation and advertising lines, which no bucket gets.
pub open spec fn is_skipped(line: Seq<char>) -> bool {
    starts_with(line, "<references/>"@) || starts_with(line, "{{干员导航}}"@) || contains(
        line,
        "{{ads/"@,
    )
}

/// The title of a `== title ==` line, when it has one.
pub open spec fn section_header(line: Seq<char>) -> Option<Seq<char>> {
    let t = trim(line);
    if starts_with(t, "=="@) && ends_with(t, "=="@) {
        let inner = trim(trim_char(t, '='));
        if inner.len() > 0 {
            Some(inner)
        } else {
            None
        }
    } else {
        None
    }
}

/// The bucket a section title leads to.
pub open spec fn header_bucket(h: Seq<char>) -> Bucket {
    if contains(h, "干员模型"@) || contains(h, "时装"@) || contains(h, "立绘"@) || contains(
        h,
        "图鉴"@,
    ) {
        Bucket::Gallery
    } else if contains(h, "材料"@) || contains(h, "后勤"@) {
        Bucket::Build
    } else if contains(h, "天赋"@) || contains(h, "技能"@) || contains(h, "潜能"@) || contains(
        h,
        "模组"@,
    ) || contains(h, "召唤物"@) || contains(h, "攻击范围"@) || contains(h, "特性"@) || contains(
        h,
        "属性"@,
    ) || contains(h, "面板"@) {
        Bucket::Combat
    } else if contains(h, "干员档案"@) || contains(h, "背景故事"@) || contains(h, "履历"@) {
        Bucket::Lore
    } else {
        Bucket::Basic
    }
}

/// The bucket after a template line: some templates switch it, others keep `cur`.
pub open spec fn template_bucket(line: Seq<char>, cur: Bucket) -> Bucket {
    if starts_with(line, "{{干员/技能"@) || starts_with(line, "{{干员/面板"@) || starts_with(
        line,
        "{{属性"@,
    ) || starts_with(line, "{{干员/潜能提升"@) || starts_with(line, "{{潜能"@) {
        Bucket::Combat
    } else if starts_with(line, "{{干员/基建"@) || starts_with(line, "{{后勤技能"@) {
        Bucket::Build
    } else if starts_with(line, "{{人员档案"@) {
        Bucket::Lore
    } else if starts_with(line, "{{干员信息"@) || starts_with(line, "{{Charinfo"@) {
        Bucket::Basic
    } else {
        cur
    }
}

/// What a section title line is stored as.
pub open spec fn header_line(h: Seq<char>) -> Seq<char> {
    "\n### "@ + h
}

/// One line processed: the current bucket and the buckets after it.
pub open spec fn route_step(st: (Bucket, BlocksView), line: Seq<char>) -> (Bucket, BlocksView) {
    if is_skipped(line) {
        st
    } else {
        match section_header(line) {
            Some(h) => (header_bucket(h), pushed(st.1, header_bucket(h), header_line(h))),
            None => (
                template_bucket(line, st.0),
                pushed(st.1, template_bucket(line, st.0), line),
            ),
        }
    }
}

/// The state after the given lines, starting in the basic bucket with all buckets empty.
pub open spec fn route_lines(ls: Seq<Seq<char>>) -> (Bucket, BlocksView)
    decreases ls.len(),
{
    if ls.len() == 0 {
        (Bucket::Basic, empty_blocks())
    } else {
        route_step(route_lines(ls.drop_last()), ls.last())
    }
}

/// The buckets of a page.
pub open spec fn categorized(text: Seq<char>) -> BlocksView {
    route_lines(lines(text)).1
}

fn is_skipped_exec(line: &Vec<char>) -> (r: bool)
    ensures
        r == is_skipped(line@),
{
    starts_with_str(line, "<references/>") || starts_with_str(line, "{{干员导航}}")
        || contains_str(line, "{{ads/")
}

/// Extracts the title of a `== title ==` line.
pub fn extract_section_header(line: &Vec<char>) -> (r: Option<Vec<char>>)
    ensures
        r matches Some(h) ==> section_header(line@) == Some(h@),
        r is None ==> section_header(line@) is None,
{
    let t = trim_exec(line);
    if starts_with_str(&t, "==") && ends_with_str(&t, "==") {
        let stripped = trim_char_exec(&t, '=');
        let inner = trim_exec(&stripped);
        if inner.len() > 0 {
            return Some(inner);
        }
    }
    None
}

/// Chooses the bucket for a section title.
pub fn route_by_header(h: &Vec<char>) -> (b: Bucket)
    ensures
        b == header_bucket(h@),
{
    if contains_str(h, "干员模型") || contains_str(h, "时装") || contains_str(h, "立绘")
        || contains_str(h, "图鉴") {
        Bucket::Gallery
    } else if contains_str(h, "材料") || contains_str(h, "后勤") {
        Bucket::Build
    } else if contains_str(h, "天赋") || contains_str(h, "技能") || contains_str(h, "潜能")
        || contains_str(h, "模组") || contains_str(h, "召唤物") || contains_str(h, "攻击范围")
        || contains_str(h, "特性") || contains_str(h, "属性") || contains_str(h, "面板") {
        Bucket::Combat
    } else if contains_str(h, "干员档案") || contains_str(h, "背景故事") || contains_str(
        h,
        "履历",
    ) {
        Bucket::Lore
    } else {
        Bucket::Basic
    }
}

fn template_bucket_exec(line: &Vec<char>, cur: Bucket) -> (b: Bucket)
    ensures
        b == template_bucket(line@, cur),
{
    if starts_with_str(line, "{{干员/技能") || starts_with_str(line, "{{干员/面板")
        || starts_with_str(line, "{{属性") || starts_with_str(line, "{{干员/潜能提升")
        || starts_with_str(line, "{{潜能") {
        Bucket::Combat
    } else if starts_with_str(line, "{{干员/基建") || starts_with_str(line, "{{后勤技能") {
        Bucket::Build
    } else if starts_with_str(line, "{{人员档案") {
        Bucket::Lore
    } else if starts_with_str(line, "{{干员信息") || starts_with_str(line, "{{Charinfo") {
        Bucket::Basic
    } else {
        cur
    }
}

/// The buckets while they are being filled.
pub struct Buckets {
    pub basic: Vec<Vec<char>>,
    pub combat: Vec<Vec<char>>,
    pub build: Vec<Vec<char>>,
    pub lore: Vec<Vec<char>>,
    pub gallery: Vec<Vec<char>>,
}

impl Buckets {
    pub open spec fn view_blocks(&self) -> BlocksView {
        BlocksView {
            basic: views(self.basic@),
            combat: views(self.combat@),
            build: views(self.build@),
            lore: views(self.lore@),
            gallery: views(self.gallery@),
        }
    }
}

/// Appends `line` to the bucket `current`.
pub fn push_to(blocks: &mut Buckets, current: Bucket, line: Vec<char>)
    ensures
        final(blocks).view_blocks() == pushed(old(blocks).view_blocks(), current, line@),
{
    let ghost old_b = blocks.view_blocks();
    match current {
        Bucket::Combat => {
            blocks.combat.push(line);
            assert(views(blocks.combat@) =~= old_b.combat.push(line@));
        },
        Bucket::Build => {
            blocks.build.push(line);
            assert(views(blocks.build@) =~= old_b.build.push(line@));
        },
        Bucket::Lore => {
            blocks.lore.push(line);
            assert(views(blocks.lore@) =~= old_b.lore.push(line@));
        },
        Bucket::Gallery => {
            blocks.gallery.push(line);
            assert(views(blocks.gallery@) =~= old_b.gallery.push(line@));
        },
        Bucket::Basic => {
            blocks.basic.push(line);
            assert(views(blocks.basic@) =~= old_b.basic.push(line@));
        },
    }
}

/// Routes the lines (already split) into the buckets.
pub fn categorize_chars(ls: &Vec<Vec<char>>) -> (r: Buckets)
    ensures
        r.view_blocks() == route_lines(views(ls@)).1,
{
    let mut blocks = Buckets {
        basic: Vec::new(),
        combat: Vec::new(),
        build: Vec::new(),
        lore: Vec::new(),
        gallery: Vec::new(),
    };
    let mut current = Bucket::Basic;
    let mut i: usize = 0;
    assert(blocks.view_blocks() =~= empty_blocks());
    while i < ls.len()
        invariant
            i <= ls@.len(),
            (current, blocks.view_blocks()) == route_lines(views(ls@).take(i as int)),
        decreases ls.len() - i,
    {
        let line = &ls[i];
        assert(views(ls@).take(i + 1).drop_last() =~= views(ls@).take(i as int));
        assert(views(ls@).take(i + 1).last() == line@);
        if is_skipped_exec(line) {
            i = i + 1;
            continue;
        }
        match extract_section_header(line) {
            Some(header) => {
                current = route_by_header(&header);
                let mut pl = chars_of("\n### ");
                append(&mut pl, &header);
                push_to(&mut blocks, current, pl);
            },
            None => {
                current = template_bucket_exec(line, current);
                push_to(&mut blocks, current, line.clone());
            },
        }
        i = i + 1;
    }
    assert(views(ls@).take(ls@.len() as int) =~= views(ls@));
    blocks
}

/// Sorts the lines of a page into the five buckets: `== title ==` lines choose the
/// bucket by their title (and are kept as `\n### title`), certain templates switch it,
/// navigation and advertising lines are dropped, and every other line goes to the
/// bucket in force.
pub fn categorize_lines(wikitext: &str) -> (r: WikiBlocks)
    ensures
        r.view_blocks() == categorized(wikitext@),
{
    let ls = lines_str(wikitext);
    let b = categorize_chars(&ls);
    WikiBlocks {
        basic: to_strings(&b.basic),
        combat: to_strings(&b.combat),
        build: to_strings(&b.build),
        lore: to_strings(&b.lore),
        gallery: to_strings(&b.gallery),
    }
}

/// The number of lines held by all buckets together.
pub open spec fn total(bl: BlocksView) -> nat {
    bl.basic.len() + bl.combat.len() + bl.build.len() + bl.lore.len() + bl.gallery.len()
}

/// The number of lines that are not navigation or advertising lines.
pub open spec fn kept_count(ls: Seq<Seq<char>>) -> nat
    decreases ls.len(),
{
    if ls.len() == 0 {
        0
    } else {
        kept_count(ls.drop_last()) + if is_skipped(ls.last()) {
            0nat
        } else {
            1nat
        }
    }
}

proof fn lemma_route_total(ls: Seq<Seq<char>>)
    ensures
        total(route_lines(ls).1) == kept_count(ls),
    decreases ls.len(),
{
    if ls.len() > 0 {
        lemma_route_total(ls.drop_last());
    }
}

/// Every line of a page that is not a navigation or advertising line lands in exactly
/// one bucket, and nothing else is added: the buckets together hold as many lines as
/// the page has kept lines.
pub proof fn law_every_kept_line_lands_once(text: Seq<char>)
    ensures
        total(categorized(text)) == kept_count(lines(text)),
{
    lemma_route_total(lines(text));
}

/// The lines held by bucket `b`.
pub open spec fn bucket_lines(bl: BlocksView, b: Bucket) -> Seq<Seq<char>> {
    match b {
        Bucket::Basic => bl.basic,
        Bucket::Combat => bl.combat,
        Bucket::Build => bl.build,
        Bucket::Lore => bl.lore,
        Bucket::Gallery => bl.gallery,
    }
}

/// The kept lines of a page in order, each with the bucket it lands in and the text it
/// is stored as (a section title line as `\n### title`, any other line as it is).
pub open spec fn routed(ls: Seq<Seq<char>>) -> Seq<(Bucket, Seq<char>)>
    decreases ls.len(),
{
    if ls.len() == 0 {
        Seq::empty()
    } else {
        let r = routed(ls.drop_last());
        let line = ls.last();
        if is_skipped(line) {
            r
        } else {
            match section_header(line) {
                Some(h) => r.push((header_bucket(h), header_line(h))),
                None => r.push((template_bucket(line, route_lines(ls.drop_last()).0), line)),
            }
        }
    }
}

/// The texts of the entries labelled `b`, in order.
pub open spec fn labelled(rs: Seq<(Bucket, Seq<char>)>, b: Bucket) -> Seq<Seq<char>>
    decreases rs.len(),
{
    if rs.len() == 0 {
        Seq::empty()
    } else if rs.last().0 == b {
        labelled(rs.drop_last(), b).push(rs.last().1)
    } else {
        labelled(rs.drop_last(), b)
    }
}

proof fn lemma_routed(ls: Seq<Seq<char>>)
    ensures
        routed(ls).len() == kept_count(ls),
        forall|b: Bucket| #[trigger] bucket_lines(route_lines(ls).1, b) == labelled(routed(ls), b),
    decreases ls.len(),
{
    if ls.len() > 0 {
        lemma_routed(ls.drop_last());
        let st = route_lines(ls.drop_last());
        let r = routed(ls.drop_last());
        let line = ls.last();
        if !is_skipped(line) {
            let e = routed(ls).last();
            assert(routed(ls) == r.push(e));
            assert(r.push(e).drop_last() =~= r);
            assert(route_lines(ls).1 == pushed(st.1, e.0, e.1));
            assert forall|b: Bucket| #[trigger] bucket_lines(route_lines(ls).1, b) == labelled(routed(ls), b) by {
                assert(bucket_lines(st.1, b) == labelled(r, b));
                if b == e.0 {
                    assert(bucket_lines(pushed(st.1, e.0, e.1), b) == bucket_lines(st.1, b).push(e.1));
                } else {
                    assert(bucket_lines(pushed(st.1, e.0, e.1), b) == bucket_lines(st.1, b));
                }
            }
        } else {
            assert forall|b: Bucket| #[trigger] bucket_lines(route_lines(ls).1, b) == labelled(routed(ls), b) by {
                assert(bucket_lines(st.1, b) == labelled(r, b));
            }
        }
    }
}

/// The buckets split the kept lines of a page (those that are not navigation or
/// advertising lines) between them: each kept line, in page order, lands in exactly
/// one bucket, and each bucket holds exactly the lines that land in it, in page order.
pub proof fn law_buckets_partition_kept_lines(text: Seq<char>)
    ensures
        routed(lines(text)).len() == kept_count(lines(text)),
        forall|b: Bucket| #[trigger] bucket_lines(categorized(text), b) == labelled(routed(lines(text)), b),
{
    lemma_routed(lines(text));
}

/// Whether a section title names outfits or artwork.
pub open spec fn names_gallery(h: Seq<char>) -> bool {
    contains(h, "干员模型"@) || contains(h, "时装"@) || contains(h, "立绘"@) || contains(h, "图鉴"@)
}

/// Whether a section title names materials or base skills.
pub open spec fn names_build(h: Seq<char>) -> bool {
    contains(h, "材料"@) || contains(h, "后勤"@)
}

/// Whether a section title names a part of the combat data.
pub open spec fn names_combat(h: Seq<char>) -> bool {
    contains(h, "天赋"@) || contains(h, "技能"@) || contains(h, "潜能"@) || contains(h, "模组"@)
        || contains(h, "召唤物"@) || contains(h, "攻击范围"@) || contains(h, "特性"@) || contains(
        h,
        "属性"@,
    ) || contains(h, "面板"@)
}

/// Whether a section title names the archives.
pub open spec fn names_lore(h: Seq<char>) -> bool {
    contains(h, "干员档案"@) || contains(h, "背景故事"@) || contains(h, "履历"@)
}

/// A section title leads to the gallery where it names outfits or artwork; else to the
/// build bucket where it names materials or base skills; else to the combat bucket where
/// it names talents, skills, potentials, modules, summons, the attack range, the trait,
/// attributes or the panel; else to the lore bucket where it names the archives; and to
/// the basic bucket otherwise.
pub proof fn law_header_routing(h: Seq<char>)
    ensures
        names_gallery(h) ==> header_bucket(h) == Bucket::Gallery,
        !names_gallery(h) && names_build(h) ==> header_bucket(h) == Bucket::Build,
        !names_gallery(h) && !names_build(h) && names_combat(h) ==> header_bucket(h) == Bucket::Combat,
        !names_gallery(h) && !names_build(h) && !names_combat(h) && names_lore(h) ==> header_bucket(h)
            == Bucket::Lore,
        !names_gallery(h) && !names_build(h) && !names_combat(h) && !names_lore(h) ==> header_bucket(h)
            == Bucket::Basic,
{
}

/// A `== title ==` line that is not a navigation or advertising line switches to the
/// bucket its title leads to and is stored there as `\n### title`.
pub proof fn law_header_line_lands_in_its_bucket(ls: Seq<Seq<char>>, line: Seq<char>)
    ensures
        !is_skipped(line) && section_header(line) is Some ==> {
            let h = section_header(line)->0;
            let after = route_lines(ls.push(line));
            &&& after.0 == header_bucket(h)
            &&& bucket_lines(after.1, header_bucket(h)) == bucket_lines(route_lines(ls).1, header_bucket(h)).push(
                header_line(h),
            )
        },
{
    assert(ls.push(line).drop_last() =~= ls);
}

proof fn lemma_prefixes_exclusive(l: Seq<char>, a: Seq<char>, b: Seq<char>, i: int)
    requires
        0 <= i < a.len(),
        i < b.len(),
        a[i] != b[i],
    ensures
        starts_with(l, a) ==> !starts_with(l, b),
{
    if starts_with(l, a) && starts_with(l, b) {
        assert(l.take(a.len() as int)[i] == l.take(b.len() as int)[i]);
    }
}

proof fn lemma_prefix_of_prefix(l: Seq<char>, a: Seq<char>, b: Seq<char>)
    requires
        starts_with(a, b),
    ensures
        starts_with(l, a) ==> starts_with(l, b),
{
    if starts_with(l, a) {
        assert(l.take(b.len() as int) =~= a.take(b.len() as int));
    }
}

/// A template line switches the bucket: skill, panel, attribute and potential templates
/// to combat, base-skill templates to build, the archive template to lore and the
/// operator-info templates to basic; any other line keeps the bucket in force.
pub proof fn law_template_routing(line: Seq<char>, cur: Bucket)
    ensures
        starts_with(line, "{{干员/技能"@) || starts_with(line, "{{干员/面板"@) || starts_with(line, "{{属性"@) || starts_with(line, "{{干员/潜能提升"@) || starts_with(line, "{{潜能"@) ==> template_bucket(line, cur) == Bucket::Combat,
        starts_with(line, "{{干员/基建"@) || starts_with(line, "{{后勤技能"@) ==> template_bucket(line, cur) == Bucket::Build,
        starts_with(line, "{{人员档案"@) ==> template_bucket(line, cur) == Bucket::Lore,
        starts_with(line, "{{干员信息"@) || starts_with(line, "{{Charinfo"@) ==> template_bucket(line, cur) == Bucket::Basic,
        !starts_with(line, "{{"@) ==> template_bucket(line, cur) == cur,
{
    reveal_strlit("{{");
    reveal_strlit("{{干员/技能");
    reveal_strlit("{{干员/面板");
    reveal_strlit("{{属性");
    reveal_strlit("{{干员/潜能提升");
    reveal_strlit("{{潜能");
    reveal_strlit("{{干员/基建");
    reveal_strlit("{{后勤技能");
    reveal_strlit("{{人员档案");
    reveal_strlit("{{干员信息");
    reveal_strlit("{{Charinfo");
    lemma_prefixes_exclusive(line, "{{干员/基建"@, "{{干员/技能"@, 5);
    lemma_prefixes_exclusive(line, "{{干员/基建"@, "{{干员/面板"@, 5);
    lemma_prefixes_exclusive(line, "{{干员/基建"@, "{{属性"@, 2);
    lemma_prefixes_exclusive(line, "{{干员/基建"@, "{{干员/潜能提升"@, 5);
    lemma_prefixes_exclusive(line, "{{干员/基建"@, "{{潜能"@, 2);
    lemma_prefixes_exclusive(line, "{{后勤技能"@, "{{干员/技能"@, 2);
    lemma_prefixes_exclusive(line, "{{后勤技能"@, "{{干员/面板"@, 2);
    lemma_prefixes_exclusive(line, "{{后勤技能"@, "{{属性"@, 2);
    lemma_prefixes_exclusive(line, "{{后勤技能"@, "{{干员/潜能提升"@, 2);
    lemma_prefixes_exclusive(line, "{{后勤技能"@, "{{潜能"@, 2);
    lemma_prefixes_exclusive(line, "{{人员档案"@, "{{干员/技能"@, 2);
    lemma_prefixes_exclusive(line, "{{人员档案"@, "{{干员/面板"@, 2);
    lemma_prefixes_exclusive(line, "{{人员档案"@, "{{属性"@, 2);
    lemma_prefixes_exclusive(line, "{{人员档案"@, "{{干员/潜能提升"@, 2);
    lemma_prefixes_exclusive(line, "{{人员档案"@, "{{潜能"@, 2);
    lemma_prefixes_exclusive(line, "{{人员档案"@, "{{干员/基建"@, 2);
    lemma_prefixes_exclusive(line, "{{人员档案"@, "{{后勤技能"@, 2);
    lemma_prefixes_exclusive(line, "{{干员信息"@, "{{干员/技能"@, 4);
    lemma_prefixes_exclusive(line, "{{干员信息"@, "{{干员/面板"@, 4);
    lemma_prefixes_exclusive(line, "{{干员信息"@, "{{属性"@, 2);
    lemma_prefixes_exclusive(line, "{{干员信息"@, "{{干员/潜能提升"@, 4);
    lemma_prefixes_exclusive(line, "{{干员信息"@, "{{潜能"@, 2);
    lemma_prefixes_exclusive(line, "{{干员信息"@, "{{干员/基建"@, 4);
    lemma_prefixes_exclusive(line, "{{干员信息"@, "{{后勤技能"@, 2);
    lemma_prefixes_exclusive(line, "{{干员信息"@, "{{人员档案"@, 2);
    lemma_prefixes_exclusive(line, "{{Charinfo"@, "{{干员/技能"@, 2);
    lemma_prefixes_exclusive(line, "{{Charinfo"@, "{{干员/面板"@, 2);
    lemma_prefixes_exclusive(line, "{{Charinfo"@, "{{属性"@, 2);
    lemma_prefixes_exclusive(line, "{{Charinfo"@, "{{干员/潜能提升"@, 2);
    lemma_prefixes_exclusive(line, "{{Charinfo"@, "{{潜能"@, 2);
    lemma_prefixes_exclusive(line, "{{Charinfo"@, "{{干员/基建"@, 2);
    lemma_prefixes_exclusive(line, "{{Charinfo"@, "{{后勤技能"@, 2);
    lemma_prefixes_exclusive(line, "{{Charinfo"@, "{{人员档案"@, 2);
    assert(starts_with("{{干员/技能"@, "{{"@)) by {
        assert("{{干员/技能"@.take(2) =~= "{{"@);
    }
    assert(starts_with("{{干员/面板"@, "{{"@)) by {
        assert("{{干员/面板"@.take(2) =~= "{{"@);
    }
    assert(starts_with("{{属性"@, "{{"@)) by {
        assert("{{属性"@.take(2) =~= "{{"@);
    }
    assert(starts_with("{{干员/潜能提升"@, "{{"@)) by {
        assert("{{干员/潜能提升"@.take(2) =~= "{{"@);
    }
    assert(starts_with("{{潜能"@, "{{"@)) by {
        assert("{{潜能"@.take(2) =~= "{{"@);
    }
    assert(starts_with("{{干员/基建"@, "{{"@)) by {
        assert("{{干员/基建"@.take(2) =~= "{{"@);
    }
    assert(starts_with("{{后勤技能"@, "{{"@)) by {
        assert("{{后勤技能"@.take(2) =~= "{{"@);
    }
    assert(starts_with("{{人员档案"@, "{{"@)) by {
        assert("{{人员档案"@.take(2) =~= "{{"@);
    }
    assert(starts_with("{{干员信息"@, "{{"@)) by {
        assert("{{干员信息"@.take(2) =~= "{{"@);
    }
    assert(starts_with("{{Charinfo"@, "{{"@)) by {
        assert("{{Charinfo"@.take(2) =~= "{{"@);
    }
    lemma_prefix_of_prefix(line, "{{干员/技能"@, "{{"@);
    lemma_prefix_of_prefix(line, "{{干员/面板"@, "{{"@);
    lemma_prefix_of_prefix(line, "{{属性"@, "{{"@);
    lemma_prefix_of_prefix(line, "{{干员/潜能提升"@, "{{"@);
    lemma_prefix_of_prefix(line, "{{潜能"@, "{{"@);
    lemma_prefix_of_prefix(line, "{{干员/基建"@, "{{"@);
    lemma_prefix_of_prefix(line, "{{后勤技能"@, "{{"@);
    lemma_prefix_of_prefix(line, "{{人员档案"@, "{{"@);
    lemma_prefix_of_prefix(line, "{{干员信息"@, "{{"@);
    lemma_prefix_of_prefix(line, "{{Charinfo"@, "{{"@);
}

} // verus!
