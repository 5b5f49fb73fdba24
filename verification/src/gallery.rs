//! The GALLERY domain: elite artwork and outfits, with their descriptions and image links.
use vstd::prelude::*;
use vstd::utf8::encode_utf8;
use crate::fields::{exact_field, field};
use crate::lore::{fenced, lore_text};
use crate::md::{push_line, push_str_line};
use crate::strops::{decimal, decimal_exec, join, join_str};
use crate::text::{append, append_str, chars_of, chars_of_all, opt_view, to_strings, views};
use crate::urlenc::{url_encode, url_encoded};
use crate::wikitext::{br_to_exec, clean_chars, cleaned};

verus! {

pub const IMG_BASE: &'static str = "https://prts.wiki/w/Special:FilePath/%E7%AB%8B%E7%BB%98_";

/// A field of the page, cleaned.
pub open spec fn cleaned_field(main: Seq<char>, key: Seq<char>) -> Option<Seq<char>> {
    match exact_field(main, key) {
        Some(v) => Some(cleaned(v)),
        None => None,
    }
}

/// The image name suffix of elite stage `i`.
pub open spec fn elite_suffix(i: nat) -> Seq<char> {
    if i == 0 {
        "1"@
    } else if i == 1 {
        "1%2B"@
    } else {
        "2"@
    }
}

/// The lines of an artwork block, with the concept artist line where there is one.
pub open spec fn art_lines(
    head: Seq<Seq<char>>,
    concept: Option<Seq<char>>,
    artist: Seq<char>,
    url: Seq<char>,
    text: Seq<char>,
) -> Seq<Seq<char>> {
    head + match concept {
        Some(c) => seq!["- **原案**: "@ + c],
        None => Seq::empty(),
    } + seq!["- **原画**: "@ + artist, "- **原图**: [下载]("@ + url + ")"@, fenced(text)]
}

/// The block of elite stage `i`, if the page describes it.
pub open spec fn elite_block(main: Seq<char>, i: nat, enc: Seq<char>) -> Option<Seq<char>> {
    match exact_field(main, "精英"@ + decimal(i) + "介绍"@) {
        Some(raw) => {
            let artist = match cleaned_field(main, "画师"@) {
                Some(a) => a,
                None => "未知"@,
            };
            let url = IMG_BASE@ + enc + "_"@ + elite_suffix(i) + ".png"@;
            Some(
                join(
                    art_lines(
                        seq!["### 默认服装 - 精英"@ + decimal(i)],
                        cleaned_field(main, "原案"@),
                        artist,
                        url,
                        lore_text(raw),
                    ),
                    "\n"@,
                ),
            )
        },
        None => None,
    }
}

/// The block of outfit `i`, if the page describes it.
pub open spec fn skin_block(main: Seq<char>, i: nat, enc: Seq<char>) -> Option<Seq<char>> {
    let k = "时装"@ + decimal(i);
    match exact_field(main, k + "介绍"@) {
        Some(raw) => {
            let default_artist = match cleaned_field(main, "画师"@) {
                Some(a) => a,
                None => "未知"@,
            };
            let name = match cleaned_field(main, k + "名称"@) {
                Some(n) => n,
                None => k,
            };
            let series = match cleaned_field(main, k + "系列"@) {
                Some(s) => s,
                None => "常规"@,
            };
            let artist = match cleaned_field(main, k + "画师"@) {
                Some(a) => a,
                None => default_artist,
            };
            let concept = match cleaned_field(main, k + "原案"@) {
                Some(c) => Some(c),
                None => cleaned_field(main, "原案"@),
            };
            let url = IMG_BASE@ + enc + "_skin"@ + decimal(i) + ".png"@;
            Some(
                join(
                    art_lines(
                        seq!["### "@ + name, "- **系列**: "@ + series],
                        concept,
                        artist,
                        url,
                        lore_text(raw),
                    ),
                    "\n"@,
                ),
            )
        },
        None => None,
    }
}

/// The present values, in order.
pub open spec fn somes(s: Seq<Option<Seq<char>>>) -> Seq<Seq<char>>
    decreases s.len(),
{
    if s.len() == 0 {
        Seq::empty()
    } else {
        somes(s.drop_last()) + match s.last() {
            Some(x) => seq![x],
            None => Seq::empty(),
        }
    }
}

pub open spec fn elite_opts(main: Seq<char>, enc: Seq<char>) -> Seq<Option<Seq<char>>> {
    Seq::new(3, |i: int| elite_block(main, i as nat, enc))
}

pub open spec fn skin_opts(main: Seq<char>, enc: Seq<char>) -> Seq<Option<Seq<char>>> {
    Seq::new(15, |i: int| skin_block(main, (i + 1) as nat, enc))
}

/// The artwork blocks: elite stages 0 to 2, then outfits 1 to 15.
pub open spec fn gallery_blocks(main: Seq<char>, enc: Seq<char>) -> Seq<Seq<char>> {
    somes(elite_opts(main, enc)) + somes(skin_opts(main, enc))
}

/// The Markdown of the GALLERY domain.
pub open spec fn gallery_output(main: Seq<char>, name: Seq<char>) -> Seq<Seq<char>> {
    if main.len() == 0 {
        Seq::empty()
    } else {
        let b = gallery_blocks(main, url_encoded(encode_utf8(name)));
        if b.len() == 0 {
            seq!["该干员暂无特殊服装描述与立绘信息。"@]
        } else {
            seq![join(b, "\n\n"@)]
        }
    }
}

fn cleaned_field_exec(main: &Vec<char>, key: &Vec<char>) -> (r: Option<Vec<char>>)
    ensures
        opt_view(r) == cleaned_field(main@, key@),
{
    match field(main, key) {
        Some(v) => Some(clean_chars(&v)),
        None => None,
    }
}

fn fenced_lore(raw: &Vec<char>) -> (r: Vec<char>)
    ensures
        r@ == fenced(lore_text(raw@)),
{
    let c = clean_chars(raw);
    let t = br_to_exec(&c, "\n");
    let mut r = chars_of("\n```text\n");
    append(&mut r, &t);
    append_str(&mut r, "\n```");
    r
}

fn art_block_exec(
    head: Vec<Vec<char>>,
    concept: Option<Vec<char>>,
    artist: &Vec<char>,
    url: &Vec<char>,
    raw: &Vec<char>,
) -> (r: Vec<char>)
    ensures
        r@ == join(art_lines(views(head@), opt_view(concept), artist@, url@, lore_text(raw@)), "\n"@),
{
    let mut lines = head;
    let ghost h = views(lines@);
    match concept {
        Some(c) => {
            let mut l = chars_of("- **原案**: ");
            append(&mut l, &c);
            push_line(&mut lines, l);
        },
        None => {},
    }
    let mut l1 = chars_of("- **原画**: ");
    append(&mut l1, artist);
    push_line(&mut lines, l1);
    let mut l2 = chars_of("- **原图**: [下载](");
    append(&mut l2, url);
    append_str(&mut l2, ")");
    push_line(&mut lines, l2);
    push_line(&mut lines, fenced_lore(raw));
    assert(views(lines@) =~= art_lines(h, opt_view(concept), artist@, url@, lore_text(raw@)));
    join_str(&lines, "\n")
}

fn key_of(prefix: &str, i: u64, suffix: &str) -> (r: Vec<char>)
    ensures
        r@ == prefix@ + decimal(i as nat) + suffix@,
{
    let mut k = chars_of(prefix);
    let d = decimal_exec(i);
    append(&mut k, &d);
    append_str(&mut k, suffix);
    k
}

fn default_artist_exec(main: &Vec<char>) -> (r: Vec<char>)
    ensures
        r@ == match cleaned_field(main@, "画师"@) {
            Some(a) => a,
            None => "未知"@,
        },
{
    let k = chars_of("画师");
    match cleaned_field_exec(main, &k) {
        Some(a) => a,
        None => chars_of("未知"),
    }
}

fn elite_block_exec(main: &Vec<char>, i: u64, enc: &Vec<char>) -> (r: Option<Vec<char>>)
    requires
        i < 3,
    ensures
        opt_view(r) == elite_block(main@, i as nat, enc@),
{
    let key = key_of("精英", i, "介绍");
    match field(main, &key) {
        Some(raw) => {
            let artist = default_artist_exec(main);
            let mut url = chars_of(IMG_BASE);
            append(&mut url, enc);
            append_str(&mut url, "_");
            let suf = if i == 0 {
                chars_of("1")
            } else if i == 1 {
                chars_of("1%2B")
            } else {
                chars_of("2")
            };
            append(&mut url, &suf);
            append_str(&mut url, ".png");
            let mut head: Vec<Vec<char>> = Vec::new();
            let h = key_of("### 默认服装 - 精英", i, "");
            proof {
                reveal_strlit("");
            }
            assert(h@ =~= "### 默认服装 - 精英"@ + decimal(i as nat));
            push_line(&mut head, h);
            let ck = chars_of("原案");
            let concept = cleaned_field_exec(main, &ck);
            assert(views(head@) =~= seq!["### 默认服装 - 精英"@ + decimal(i as nat)]);
            Some(art_block_exec(head, concept, &artist, &url, &raw))
        },
        None => None,
    }
}

fn skin_block_exec(main: &Vec<char>, i: u64, enc: &Vec<char>) -> (r: Option<Vec<char>>)
    ensures
        opt_view(r) == skin_block(main@, i as nat, enc@),
{
    proof {
        reveal_strlit("");
    }
    let k = key_of("时装", i, "");
    assert(k@ =~= "时装"@ + decimal(i as nat));
    let mut ik = k.clone();
    append_str(&mut ik, "介绍");
    match field(main, &ik) {
        Some(raw) => {
            let default_artist = default_artist_exec(main);
            let mut nk = k.clone();
            append_str(&mut nk, "名称");
            let name = match cleaned_field_exec(main, &nk) {
                Some(n) => n,
                None => k.clone(),
            };
            let mut sk = k.clone();
            append_str(&mut sk, "系列");
            let series = match cleaned_field_exec(main, &sk) {
                Some(x) => x,
                None => chars_of("常规"),
            };
            let mut ak = k.clone();
            append_str(&mut ak, "画师");
            let artist = match cleaned_field_exec(main, &ak) {
                Some(a) => a,
                None => default_artist,
            };
            let mut ck = k.clone();
            append_str(&mut ck, "原案");
            let concept = match cleaned_field_exec(main, &ck) {
                Some(c) => Some(c),
                None => {
                    let dk = chars_of("原案");
                    cleaned_field_exec(main, &dk)
                },
            };
            let mut url = chars_of(IMG_BASE);
            append(&mut url, enc);
            append_str(&mut url, "_skin");
            let d = decimal_exec(i);
            append(&mut url, &d);
            append_str(&mut url, ".png");
            let mut head: Vec<Vec<char>> = Vec::new();
            let mut h1 = chars_of("### ");
            append(&mut h1, &name);
            push_line(&mut head, h1);
            let mut h2 = chars_of("- **系列**: ");
            append(&mut h2, &series);
            push_line(&mut head, h2);
            assert(views(head@) =~= seq!["### "@ + name@, "- **系列**: "@ + series@]);
            assert(ik@ == k@ + "介绍"@);
            assert(url@ == IMG_BASE@ + enc@ + "_skin"@ + decimal(i as nat) + ".png"@);
            Some(art_block_exec(head, concept, &artist, &url, &raw))
        },
        None => None,
    }
}

fn push_some(v: &mut Vec<Vec<char>>, o: Option<Vec<char>>)
    ensures
        views(final(v)@) == views(old(v)@) + match opt_view(o) {
            Some(x) => seq![x],
            None => Seq::<Seq<char>>::empty(),
        },
{
    let ghost before = views(v@);
    match o {
        Some(x) => push_line(v, x),
        None => {},
    }
    assert(views(v@) =~= before + match opt_view(o) {
        Some(x) => seq![x],
        None => Seq::<Seq<char>>::empty(),
    });
}

/// The GALLERY domain of a page: one text holding the blocks of the elite artwork and
/// of up to fifteen outfits (description, artists, image link), or a note that there
/// are none. `character_name` (the page title) names the images.
pub fn parse_gallery_chars(main: &Vec<char>, character_name: &Vec<char>) -> (r: Vec<Vec<char>>)
    ensures
        views(r@) == gallery_output(main@, character_name@),
{
    let mut result: Vec<Vec<char>> = Vec::new();
    if main.len() == 0 {
        return result;
    }
    let enc = url_encode(character_name);
    let ghost eo = elite_opts(main@, enc@);
    let ghost so = skin_opts(main@, enc@);
    let mut blocks: Vec<Vec<char>> = Vec::new();
    let mut i: u64 = 0;
    while i < 3
        invariant
            i <= 3,
            eo == elite_opts(main@, enc@),
            views(blocks@) == somes(eo.take(i as int)),
        decreases 3 - i,
    {
        let b = elite_block_exec(main, i, &enc);
        assert(eo.take(i + 1).drop_last() =~= eo.take(i as int));
        assert(eo.take(i + 1).last() == elite_block(main@, i as nat, enc@));
        push_some(&mut blocks, b);
        i = i + 1;
    }
    assert(eo.take(3) =~= eo);
    let ghost after_elite = views(blocks@);
    let mut j: u64 = 1;
    while j <= 15
        invariant
            1 <= j <= 16,
            so == skin_opts(main@, enc@),
            after_elite == somes(eo),
            views(blocks@) == after_elite + somes(so.take(j - 1)),
        decreases 16 - j,
    {
        let b = skin_block_exec(main, j, &enc);
        assert(so.take(j as int).drop_last() =~= so.take(j - 1));
        assert(so.take(j as int).last() == skin_block(main@, j as nat, enc@));
        let ghost before = views(blocks@);
        push_some(&mut blocks, b);
        assert(views(blocks@) =~= after_elite + somes(so.take(j as int)));
        j = j + 1;
    }
    assert(so.take(15) =~= so);
    if blocks.len() == 0 {
        push_str_line(&mut result, "该干员暂无特殊服装描述与立绘信息。");
    } else {
        let all = join_str(&blocks, "\n\n");
        push_line(&mut result, all);
    }
    assert(views(result@) =~= gallery_output(main@, character_name@));
    result
}

/// The GALLERY domain of a page. The gallery bucket lines are not read: everything
/// comes from the whole page `main_text`.
pub fn parse_gallery(_lines: &Vec<String>, main_text: &str, character_name: &str) -> (r: Vec<
    String,
>)
    ensures
        r.deep_view() == gallery_output(main_text@, character_name@),
{
    let m = chars_of(main_text);
    let n = chars_of(character_name);
    let out = parse_gallery_chars(&m, &n);
    to_strings(&out)
}

} // verus!
