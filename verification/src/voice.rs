//! The VOICE domain: voice lines in Chinese and Japanese with their audio links.
use vstd::prelude::*;
use crate::md::{extend, flat, push_line, push_str_line};
use crate::patterns::{captures, captures_all, grp, regex_all_captures, regex_first_captures};
use crate::strops::{
    lines, lines_exec, split_seq, split_str, strip_all_prefix, strip_all_prefix_exec, trim,
    trim_exec,
};
use crate::text::{
    append, append_str, chars_of, chars_of_all, contains, contains_str, eq_str, find, find_exec,
    skip, slice_of, starts_with, starts_with_str, to_string, to_strings, views,
};
use crate::wikitext::{clean_chars, cleaned};

verus! {

pub const PAT_VOICE_KEY: &'static str = "\\|语音key=([^\\n|]+)";

pub const PAT_PATHS: &'static str = "\\|路径=([^\\n]+)";

pub const PAT_TITLE: &'static str = "^(\\d+)=(.*?)(?:\\n|$)";

pub const PAT_VOICE_FILE: &'static str = "\\|语音\\d+=([^\\n|]+)";

pub const PAT_VOICEDATA: &'static str = "\\{\\{VoiceData/word\\|([^|}]+)\\|([\\s\\S]*?)\\}\\}";

pub const PAT_LYRIC_START: &'static str = "^\\|台词\\d+=";

pub const BASE_CN: &'static str = "https://torappu.prts.wiki/assets/audio/voice_cn";

pub const BASE_JP: &'static str = "https://torappu.prts.wiki/assets/audio/voice";

/// The lowercase form of a text, by the Unicode lowercase mapping of `str::to_lowercase`.
pub uninterp spec fn str_lowercase(s: Seq<char>) -> Seq<char>;

/// `str::to_lowercase`. The contract claims only that the result is the named
/// lowercase form of the argument.
#[verifier::external_body]
fn to_lowercase_raw(s: &str) -> (r: String)
    ensures
        r@ == str_lowercase(s@),
{
    s.to_lowercase()
}

/// The lowercase form of a text.
pub fn lowercase(v: &Vec<char>) -> (r: Vec<char>)
    ensures
        r@ == str_lowercase(v@),
{
    let s = to_string(v);
    let l = to_lowercase_raw(s.as_str());
    chars_of(l.as_str())
}

/// Lyrics reading state: text so far, collecting, finished.
pub type LyricState = (Seq<char>, bool, bool);

pub open spec fn lyric_step(st: LyricState, line: Seq<char>) -> LyricState {
    if st.2 {
        st
    } else if regex_first_captures(PAT_LYRIC_START@, line) is Some {
        let buf = match find(line, "="@) {
            Some(e) => line.skip(e + 1),
            None => Seq::empty(),
        };
        (buf, true, false)
    } else if st.1 {
        if starts_with(line, "|"@) {
            (st.0, st.1, true)
        } else {
            (st.0 + "\n"@ + line, st.1, false)
        }
    } else {
        st
    }
}

pub open spec fn lyric_lines(ls: Seq<Seq<char>>) -> LyricState
    decreases ls.len(),
{
    if ls.len() == 0 {
        (Seq::empty(), false, false)
    } else {
        lyric_step(lyric_lines(ls.drop_last()), ls.last())
    }
}

/// The lyrics of a voice block: from the last `|台词N=` line on (its text after `=`),
/// up to the next `|` line, trimmed.
pub open spec fn lyrics_text(chunk: Seq<char>) -> Seq<char> {
    trim(lyric_lines(lines(chunk)).0)
}

/// Extracts the lyrics text of a voice block.
pub fn extract_lyrics_text(chunk: &Vec<char>) -> (r: Vec<char>)
    ensures
        r@ == lyrics_text(chunk@),
{
    let ls = lines_exec(chunk);
    let mut buf: Vec<char> = Vec::new();
    let mut collecting = false;
    let mut done = false;
    let mut i: usize = 0;
    while i < ls.len()
        invariant
            i <= ls@.len(),
            (buf@, collecting, done) == lyric_lines(views(ls@).take(i as int)),
        decreases ls.len() - i,
    {
        let line = &ls[i];
        assert(views(ls@).take(i + 1).drop_last() =~= views(ls@).take(i as int));
        assert(views(ls@).take(i + 1).last() == line@);
        if !done {
            if captures(PAT_LYRIC_START, line).is_some() {
                let eqs = chars_of("=");
                buf = match find_exec(line, &eqs) {
                    Some(e) => {
                        proof {
                            crate::text::lemma_find(line@, eqs@);
                            reveal_strlit("=");
                        }
                        assert(e + 1 <= line.len());
                        skip(line, e + 1)
                    },
                    None => Vec::new(),
                };
                collecting = true;
            } else if collecting {
                if starts_with_str(line, "|") {
                    done = true;
                } else {
                    append_str(&mut buf, "\n");
                    append(&mut buf, line);
                }
            }
        }
        i = i + 1;
    }
    assert(views(ls@).take(ls@.len() as int) =~= views(ls@));
    trim_exec(&buf)
}

/// A `lang:path` part split at its first `:` (trimmed; the path is empty without `:`).
pub open spec fn lang_path(part: Seq<char>) -> (Seq<char>, Seq<char>) {
    match find(part, ":"@) {
        Some(i) => (trim(part.take(i)), trim(part.skip(i + 1))),
        None => (trim(part), Seq::empty()),
    }
}

/// The audio folders (Chinese, Japanese) after one `lang:path` part.
pub open spec fn folder_step(f: (Seq<char>, Seq<char>), part: Seq<char>) -> (Seq<char>, Seq<char>) {
    let (lang, path) = lang_path(part);
    if lang == "中文-普通话"@ {
        (strip_all_prefix(path, "voice_cn/"@), f.1)
    } else if lang == "日语"@ {
        (f.0, strip_all_prefix(path, "voice/"@))
    } else {
        f
    }
}

pub open spec fn folder_parts(f: (Seq<char>, Seq<char>), parts: Seq<Seq<char>>) -> (
    Seq<char>,
    Seq<char>,
)
    decreases parts.len(),
{
    if parts.len() == 0 {
        f
    } else {
        folder_step(folder_parts(f, parts.drop_last()), parts.last())
    }
}

/// The voice key of the page.
pub open spec fn voice_key(w: Seq<char>) -> Seq<char> {
    match regex_first_captures(PAT_VOICE_KEY@, w) {
        Some(c) => trim(grp(c, 1)),
        None => Seq::empty(),
    }
}

/// The audio folders (Chinese, Japanese): the voice key unless the `路径` field names them.
pub open spec fn voice_folders(w: Seq<char>) -> (Seq<char>, Seq<char>) {
    let k = voice_key(w);
    match regex_first_captures(PAT_PATHS@, w) {
        Some(c) => folder_parts((k, k), split_seq(grp(c, 1), ","@)),
        None => (k, k),
    }
}

/// The audio file of a voice block, lowercased (empty if it names none).
pub open spec fn voice_file(chunk: Seq<char>) -> Seq<char> {
    match regex_first_captures(PAT_VOICE_FILE@, chunk) {
        Some(c) => str_lowercase(trim(grp(c, 1))),
        None => Seq::empty(),
    }
}

/// An audio URL, or nothing without a file.
pub open spec fn audio_url(base: Seq<char>, folder: Seq<char>, file: Seq<char>) -> Seq<char> {
    if file.len() == 0 {
        Seq::empty()
    } else {
        base + "/"@ + folder + "/"@ + file
    }
}

/// Whether a line is a skin-only variant (marked by a bracket).
pub open spec fn is_skin(content: Seq<char>) -> bool {
    contains(content, "("@) || contains(content, "（"@)
}

/// The Chinese quote lines of the `VoiceData/word` entries.
pub open spec fn cn_quotes(all: Seq<Seq<Option<Seq<char>>>>) -> Seq<Seq<char>>
    decreases all.len(),
{
    if all.len() == 0 {
        Seq::empty()
    } else {
        let m = all.last();
        let lang = trim(grp(m, 1));
        let content = trim(grp(m, 2));
        cn_quotes(all.drop_last()) + if starts_with(lang, "中文"@) && !is_skin(content) {
            seq!["> [中] "@ + content]
        } else {
            Seq::empty()
        }
    }
}

/// The Japanese quote lines of the `VoiceData/word` entries.
pub open spec fn jp_quotes(all: Seq<Seq<Option<Seq<char>>>>) -> Seq<Seq<char>>
    decreases all.len(),
{
    if all.len() == 0 {
        Seq::empty()
    } else {
        let m = all.last();
        let lang = trim(grp(m, 1));
        let content = trim(grp(m, 2));
        jp_quotes(all.drop_last()) + if !(starts_with(lang, "中文"@) && !is_skin(content))
            && starts_with(lang, "日文"@) && !is_skin(content) {
            seq!["> [日] "@ + content]
        } else {
            Seq::empty()
        }
    }
}

/// The lines of one voice block (the text after a `|标题` marker).
pub open spec fn voice_block(chunk: Seq<char>, folders: (Seq<char>, Seq<char>)) -> Seq<Seq<char>> {
    match regex_first_captures(PAT_TITLE@, chunk) {
        None => Seq::empty(),
        Some(tc) => {
            let raw = lyrics_text(chunk);
            if raw.len() == 0 {
                Seq::empty()
            } else {
                let text = cleaned(raw);
                let file = voice_file(chunk);
                let cn_url = audio_url(BASE_CN@, folders.0, file);
                let jp_url = audio_url(BASE_JP@, folders.1, file);
                let head = seq!["\n### "@ + trim(grp(tc, 2))];
                let all = regex_all_captures(PAT_VOICEDATA@, text);
                let cn_link = if cn_url.len() > 0 {
                    seq!["> [中]("@ + cn_url + ")\n>"@]
                } else {
                    Seq::empty()
                };
                let jp_link = if jp_url.len() > 0 {
                    seq!["> [日]("@ + jp_url + ")"@]
                } else {
                    Seq::empty()
                };
                if all.len() == 0 {
                    head + seq!["> [中] "@ + text] + cn_link + jp_link
                } else {
                    let cn = cn_quotes(all);
                    let jp = jp_quotes(all);
                    head + (if cn.len() > 0 {
                        cn + cn_link
                    } else {
                        Seq::empty()
                    }) + (if jp.len() > 0 {
                        jp + jp_link
                    } else {
                        Seq::empty()
                    })
                }
            }
        },
    }
}

pub open spec fn voice_blocks(chunks: Seq<Seq<char>>, folders: (Seq<char>, Seq<char>)) -> Seq<
    Seq<Seq<char>>,
> {
    chunks.map_values(|c: Seq<char>| voice_block(c, folders))
}

/// The Markdown of the VOICE domain for the voice record page.
pub open spec fn voice_output(w: Seq<char>) -> Seq<Seq<char>> {
    flat(voice_blocks(split_seq(w, "|标题"@).drop_first(), voice_folders(w)))
}

fn lang_path_exec(part: &Vec<char>) -> (r: (Vec<char>, Vec<char>))
    ensures
        (r.0@, r.1@) == lang_path(part@),
{
    let colon = chars_of(":");
    match find_exec(part, &colon) {
        Some(i) => {
            proof {
                crate::text::lemma_find(part@, colon@);
                reveal_strlit(":");
            }
            assert(i + 1 <= part.len());
            let a = slice_of(part, 0, i);
            assert(a@ =~= part@.take(i as int));
            let b = skip(part, i + 1);
            (trim_exec(&a), trim_exec(&b))
        },
        None => (trim_exec(part), Vec::new()),
    }
}

fn voice_folders_exec(w: &Vec<char>) -> (r: (Vec<char>, Vec<char>))
    ensures
        (r.0@, r.1@) == voice_folders(w@),
{
    let key = match captures(PAT_VOICE_KEY, w) {
        Some(c) => {
            let g = c.get(1);
            trim_exec(&g)
        },
        None => Vec::new(),
    };
    assert(key@ == voice_key(w@));
    let mut cn = key.clone();
    let mut jp = key.clone();
    match captures(PAT_PATHS, w) {
        Some(c) => {
            let g = c.get(1);
            proof {
                reveal_strlit(",");
            }
            let parts = split_str(&g, ",");
            let mut i: usize = 0;
            while i < parts.len()
                invariant
                    i <= parts@.len(),
                    (cn@, jp@) == folder_parts((key@, key@), views(parts@).take(i as int)),
                decreases parts.len() - i,
            {
                assert(views(parts@).take(i + 1).drop_last() =~= views(parts@).take(i as int));
                assert(views(parts@).take(i + 1).last() == parts@[i as int]@);
                let (lang, path) = lang_path_exec(&parts[i]);
                if eq_str(&lang, "中文-普通话") {
                    let pre = chars_of("voice_cn/");
                    cn = strip_all_prefix_exec(&path, &pre);
                } else if eq_str(&lang, "日语") {
                    let pre = chars_of("voice/");
                    jp = strip_all_prefix_exec(&path, &pre);
                }
                i = i + 1;
            }
            assert(views(parts@).take(parts@.len() as int) =~= views(parts@));
        },
        None => {},
    }
    (cn, jp)
}

fn audio_url_exec(base: &str, folder: &Vec<char>, file: &Vec<char>) -> (r: Vec<char>)
    ensures
        r@ == audio_url(base@, folder@, file@),
{
    if file.len() == 0 {
        return Vec::new();
    }
    let mut r = chars_of(base);
    append_str(&mut r, "/");
    append(&mut r, folder);
    append_str(&mut r, "/");
    append(&mut r, file);
    r
}

fn quotes_exec(all: &Vec<crate::patterns::Groups>, Ghost(caps): Ghost<
    Seq<Seq<Option<Seq<char>>>>,
>) -> (r: (Vec<Vec<char>>, Vec<Vec<char>>))
    requires
        all@.len() == caps.len(),
        forall|k: int| 0 <= k < all@.len() ==> (#[trigger] all@[k]).matches_caps(caps[k]),
    ensures
        views(r.0@) == cn_quotes(caps),
        views(r.1@) == jp_quotes(caps),
{
    let mut cn: Vec<Vec<char>> = Vec::new();
    let mut jp: Vec<Vec<char>> = Vec::new();
    let mut i: usize = 0;
    while i < all.len()
        invariant
            i <= all@.len(),
            all@.len() == caps.len(),
            forall|k: int| 0 <= k < all@.len() ==> (#[trigger] all@[k]).matches_caps(caps[k]),
            views(cn@) == cn_quotes(caps.take(i as int)),
            views(jp@) == jp_quotes(caps.take(i as int)),
        decreases all.len() - i,
    {
        assert(caps.take(i + 1).drop_last() =~= caps.take(i as int));
        assert(caps.take(i + 1).last() == caps[i as int]);
        let l0 = all[i].get(1);
        let lang = trim_exec(&l0);
        let c0 = all[i].get(2);
        let content = trim_exec(&c0);
        let skin = contains_str(&content, "(") || contains_str(&content, "（");
        let ghost cn0 = views(cn@);
        let ghost jp0 = views(jp@);
        if starts_with_str(&lang, "中文") && !skin {
            let mut l = chars_of("> [中] ");
            append(&mut l, &content);
            push_line(&mut cn, l);
            assert(views(jp@) =~= jp0 + Seq::<Seq<char>>::empty());
        } else if starts_with_str(&lang, "日文") && !skin {
            let mut l = chars_of("> [日] ");
            append(&mut l, &content);
            push_line(&mut jp, l);
            assert(views(cn@) =~= cn0 + Seq::<Seq<char>>::empty());
        } else {
            assert(views(jp@) =~= jp0 + Seq::<Seq<char>>::empty());
            assert(views(cn@) =~= cn0 + Seq::<Seq<char>>::empty());
        }
        i = i + 1;
    }
    assert(caps.take(all@.len() as int) =~= caps);
    (cn, jp)
}

fn voice_block_exec(chunk: &Vec<char>, cn_folder: &Vec<char>, jp_folder: &Vec<char>) -> (r: Vec<
    Vec<char>,
>)
    ensures
        views(r@) == voice_block(chunk@, (cn_folder@, jp_folder@)),
{
    let mut r: Vec<Vec<char>> = Vec::new();
    let tc = match captures(PAT_TITLE, chunk) {
        Some(tc) => tc,
        None => return r,
    };
    let raw = extract_lyrics_text(chunk);
    if raw.len() == 0 {
        return r;
    }
    let text = clean_chars(&raw);
    let file = match captures(PAT_VOICE_FILE, chunk) {
        Some(c) => {
            let g = c.get(1);
            let t = trim_exec(&g);
            lowercase(&t)
        },
        None => Vec::new(),
    };
    assert(file@ == voice_file(chunk@));
    let cn_url = audio_url_exec(BASE_CN, cn_folder, &file);
    let jp_url = audio_url_exec(BASE_JP, jp_folder, &file);
    let g2 = tc.get(2);
    let title = trim_exec(&g2);
    let mut head = chars_of("\n### ");
    append(&mut head, &title);
    push_line(&mut r, head);
    let all = captures_all(PAT_VOICEDATA, &text);
    let ghost caps = regex_all_captures(PAT_VOICEDATA@, text@);
    let mut cn_link: Vec<Vec<char>> = Vec::new();
    if cn_url.len() > 0 {
        let mut l = chars_of("> [中](");
        append(&mut l, &cn_url);
        append_str(&mut l, ")\n>");
        push_line(&mut cn_link, l);
    }
    let mut jp_link: Vec<Vec<char>> = Vec::new();
    if jp_url.len() > 0 {
        let mut l = chars_of("> [日](");
        append(&mut l, &jp_url);
        append_str(&mut l, ")");
        push_line(&mut jp_link, l);
    }
    if all.len() == 0 {
        let mut l = chars_of("> [中] ");
        append(&mut l, &text);
        push_line(&mut r, l);
        extend(&mut r, cn_link);
        extend(&mut r, jp_link);
    } else {
        let (cn, jp) = quotes_exec(&all, Ghost(caps));
        if cn.len() > 0 {
            extend(&mut r, cn);
            extend(&mut r, cn_link);
        }
        if jp.len() > 0 {
            extend(&mut r, jp);
            extend(&mut r, jp_link);
        }
    }
    assert(views(r@) =~= voice_block(chunk@, (cn_folder@, jp_folder@)));
    r
}

/// The VOICE domain: for each `|标题` block of the voice record page that has a title
/// and lyrics, its title, its Chinese and Japanese lines (skin variants left out) and
/// the links to its audio files.
pub fn parse_voice_chars(w: &Vec<char>) -> (r: Vec<Vec<char>>)
    ensures
        views(r@) == voice_output(w@),
{
    let (cn, jp) = voice_folders_exec(w);
    proof {
        reveal_strlit("|标题");
        crate::strops::lemma_split_nonempty(w@, "|标题"@);
    }
    let chunks = split_str(w, "|标题");
    let ghost rest = split_seq(w@, "|标题"@).drop_first();
    let ghost vb = voice_blocks(rest, (cn@, jp@));
    let mut out: Vec<Vec<char>> = Vec::new();
    let mut j: usize = 1;
    while j < chunks.len()
        invariant
            1 <= j <= chunks@.len(),
            views(chunks@) == split_seq(w@, "|标题"@),
            rest == split_seq(w@, "|标题"@).drop_first(),
            vb == voice_blocks(rest, (cn@, jp@)),
            views(out@) == flat(vb.take(j - 1)),
        decreases chunks.len() - j,
    {
        let b = voice_block_exec(&chunks[j], &cn, &jp);
        assert(vb.take(j as int).drop_last() =~= vb.take(j - 1));
        assert(vb[j - 1] == voice_block(chunks@[j as int]@, (cn@, jp@)));
        extend(&mut out, b);
        j = j + 1;
    }
    assert(vb.take(chunks@.len() - 1) =~= vb);
    out
}

/// The VOICE domain of a voice record page.
pub fn parse_voice(voice_wikitext: &str) -> (r: Vec<String>)
    ensures
        r.deep_view() == voice_output(voice_wikitext@),
{
    let w = chars_of(voice_wikitext);
    let out = parse_voice_chars(&w);
    to_strings(&out)
}

/// Voice lines added by outfits (their text holds a bracket) are left out: every
/// quote line shown is a quote without a bracket.
pub proof fn law_outfit_lines_left_out(all: Seq<Seq<Option<Seq<char>>>>)
    ensures
        forall|i: int|
            0 <= i < cn_quotes(all).len() ==> exists|content: Seq<char>|
                #[trigger] cn_quotes(all)[i] == "> [中] "@ + content && !is_skin(content),
        forall|i: int|
            0 <= i < jp_quotes(all).len() ==> exists|content: Seq<char>|
                #[trigger] jp_quotes(all)[i] == "> [日] "@ + content && !is_skin(content),
    decreases all.len(),
{
    if all.len() > 0 {
        law_outfit_lines_left_out(all.drop_last());
        let c0 = cn_quotes(all.drop_last());
        let j0 = jp_quotes(all.drop_last());
        let c = cn_quotes(all);
        let j = jp_quotes(all);
        assert forall|i: int| 0 <= i < c.len() implies exists|content: Seq<char>|
            #[trigger] c[i] == "> [中] "@ + content && !is_skin(content) by {
            if i < c0.len() {
                assert(c[i] == c0[i]);
            } else {
                let content = trim(grp(all.last(), 2));
                assert(c[i] == "> [中] "@ + content);
            }
        }
        assert forall|i: int| 0 <= i < j.len() implies exists|content: Seq<char>|
            #[trigger] j[i] == "> [日] "@ + content && !is_skin(content) by {
            if i < j0.len() {
                assert(j[i] == j0[i]);
            } else {
                let content = trim(grp(all.last(), 2));
                assert(j[i] == "> [日] "@ + content);
            }
        }
    }
}

/// A `中文-普通话:<path>` part sets the Chinese audio folder to the path without its
/// leading `voice_cn/` (so `voice_cn/F` gives `F`), and a `日语:<path>` part sets the
/// Japanese one to the path without its leading `voice/`; the other folder is kept.
/// Neither folder then begins with the prefix taken off.
pub proof fn law_folder_prefix_taken_off(f: (Seq<char>, Seq<char>), part: Seq<char>, rest: Seq<char>)
    ensures
        lang_path(part).0 == "中文-普通话"@ ==> {
            let r = folder_step(f, part);
            &&& r.1 == f.1
            &&& !starts_with(r.0, "voice_cn/"@)
            &&& (lang_path(part).1 == "voice_cn/"@ + rest && !starts_with(rest, "voice_cn/"@) ==> r.0 == rest)
            &&& (!starts_with(lang_path(part).1, "voice_cn/"@) ==> r.0 == lang_path(part).1)
        },
        lang_path(part).0 == "日语"@ ==> {
            let r = folder_step(f, part);
            &&& r.0 == f.0
            &&& !starts_with(r.1, "voice/"@)
            &&& (lang_path(part).1 == "voice/"@ + rest && !starts_with(rest, "voice/"@) ==> r.1 == rest)
            &&& (!starts_with(lang_path(part).1, "voice/"@) ==> r.1 == lang_path(part).1)
        },
{
    reveal_strlit("中文-普通话");
    reveal_strlit("日语");
    reveal_strlit("voice_cn/");
    reveal_strlit("voice/");
    assert("中文-普通话"@[0] != "日语"@[0]);
    let path = lang_path(part).1;
    crate::strops::law_strip_all_prefix(path, "voice_cn/"@, rest);
    crate::strops::law_strip_all_prefix(path, "voice/"@, rest);
}

/// A voice block with a title, some text, an audio file and no `VoiceData/word` entries
/// shows its title, the text marked `[中]`, then the Chinese audio link (under the
/// Chinese base and folder) and the Japanese one (under the Japanese base and folder),
/// both ending in the lowercased file name.
pub proof fn law_voice_block_links(chunk: Seq<char>, folders: (Seq<char>, Seq<char>))
    ensures
        ({
            let raw = lyrics_text(chunk);
            let file = voice_file(chunk);
            match regex_first_captures(PAT_TITLE@, chunk) {
                Some(tc) => raw.len() > 0 && file.len() > 0 && regex_all_captures(PAT_VOICEDATA@, cleaned(raw)).len()
                    == 0 ==> voice_block(chunk, folders) == seq![
                    "\n### "@ + trim(grp(tc, 2)),
                    "> [中] "@ + cleaned(raw),
                    "> [中]("@ + BASE_CN@ + "/"@ + folders.0 + "/"@ + file + ")\n>"@,
                    "> [日]("@ + BASE_JP@ + "/"@ + folders.1 + "/"@ + file + ")"@,
                ],
                None => true,
            }
        }),
{
    let raw = lyrics_text(chunk);
    let file = voice_file(chunk);
    if let Some(tc) = regex_first_captures(PAT_TITLE@, chunk) {
        if raw.len() > 0 && file.len() > 0 && regex_all_captures(PAT_VOICEDATA@, cleaned(raw)).len() == 0 {
            let cn_url = audio_url(BASE_CN@, folders.0, file);
            let jp_url = audio_url(BASE_JP@, folders.1, file);
            assert(cn_url.len() >= file.len());
            assert(jp_url.len() >= file.len());
            assert("> [中]("@ + cn_url + ")\n>"@ =~= "> [中]("@ + BASE_CN@ + "/"@ + folders.0 + "/"@ + file + ")\n>"@);
            assert("> [日]("@ + jp_url + ")"@ =~= "> [日]("@ + BASE_JP@ + "/"@ + folders.1 + "/"@ + file + ")"@);
            assert(voice_block(chunk, folders) =~= seq![
                "\n### "@ + trim(grp(tc, 2)),
                "> [中] "@ + cleaned(raw),
                "> [中]("@ + BASE_CN@ + "/"@ + folders.0 + "/"@ + file + ")\n>"@,
                "> [日]("@ + BASE_JP@ + "/"@ + folders.1 + "/"@ + file + ")"@,
            ]);
        }
    }
}

/// Every `VoiceData/word` entry in Chinese (its language starting with `中文`) that is
/// not a skin variant gives the line `> [中] <content>`, and every one in Japanese
/// (`日文`) that is not a skin variant gives `> [日] <content>`.
pub proof fn law_quote_labels(all: Seq<Seq<Option<Seq<char>>>>)
    ensures
        forall|i: int|
            0 <= i < all.len() && starts_with(trim(grp(#[trigger] all[i], 1)), "中文"@) && !is_skin(
                trim(grp(all[i], 2)),
            ) ==> cn_quotes(all).contains("> [中] "@ + trim(grp(all[i], 2))),
        forall|i: int|
            0 <= i < all.len() && !starts_with(trim(grp(#[trigger] all[i], 1)), "中文"@) && starts_with(
                trim(grp(all[i], 1)),
                "日文"@,
            ) && !is_skin(trim(grp(all[i], 2))) ==> jp_quotes(all).contains("> [日] "@ + trim(grp(all[i], 2))),
    decreases all.len(),
{
    if all.len() > 0 {
        let d = all.drop_last();
        law_quote_labels(d);
        let n = all.len() - 1;
        assert forall|i: int|
            0 <= i < all.len() && starts_with(trim(grp(#[trigger] all[i], 1)), "中文"@) && !is_skin(
                trim(grp(all[i], 2)),
            ) implies cn_quotes(all).contains("> [中] "@ + trim(grp(all[i], 2))) by {
            let x = "> [中] "@ + trim(grp(all[i], 2));
            let tail = if starts_with(trim(grp(all[n], 1)), "中文"@) && !is_skin(trim(grp(all[n], 2))) {
                seq!["> [中] "@ + trim(grp(all[n], 2))]
            } else {
                Seq::<Seq<char>>::empty()
            };
            assert(cn_quotes(all) == cn_quotes(d) + tail);
            if i < n {
                assert(d[i] == all[i]);
                let k = choose|k: int| 0 <= k < cn_quotes(d).len() && cn_quotes(d)[k] == x;
                assert((cn_quotes(d) + tail)[k] == x);
            } else {
                assert((cn_quotes(d) + tail)[cn_quotes(d).len() as int] == x);
            }
        }
        assert forall|i: int|
            0 <= i < all.len() && !starts_with(trim(grp(#[trigger] all[i], 1)), "中文"@) && starts_with(
                trim(grp(all[i], 1)),
                "日文"@,
            ) && !is_skin(trim(grp(all[i], 2))) implies jp_quotes(all).contains("> [日] "@ + trim(grp(all[i], 2))) by {
            let x = "> [日] "@ + trim(grp(all[i], 2));
            let m = all[n];
            let lang = trim(grp(m, 1));
            let content = trim(grp(m, 2));
            let tail = if !(starts_with(lang, "中文"@) && !is_skin(content)) && starts_with(lang, "日文"@)
                && !is_skin(content) {
                seq!["> [日] "@ + content]
            } else {
                Seq::<Seq<char>>::empty()
            };
            assert(jp_quotes(all) == jp_quotes(d) + tail);
            if i < n {
                assert(d[i] == all[i]);
                let k = choose|k: int| 0 <= k < jp_quotes(d).len() && jp_quotes(d)[k] == x;
                assert((jp_quotes(d) + tail)[k] == x);
            } else {
                assert((jp_quotes(d) + tail)[jp_quotes(d).len() as int] == x);
            }
        }
    }
}

} // verus!
