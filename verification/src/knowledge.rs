//! Knowledge-base text preparation: cutting a document into sentence-aligned
//! chunks for embedding, with one sentence kept as overlap between chunks.
//! Embedding vectors and their storage are the caller's business.

use vstd::prelude::*;

use crate::text::{collect_string, trim_chars, trim_spec};

verus! {

/// The chunk size (in characters) used for knowledge files.
pub const CHUNK_SIZE: usize = 300;

/// The largest file accepted into the knowledge base, in bytes.
pub const MAX_FILE_SIZE: usize = 10 * 1024 * 1024;

/// Bookkeeping attached to one stored text chunk.
pub struct TextChunkMetadata {
    pub source_page: Option<u32>,
    pub paragraph_number: Option<u32>,
    pub created_at: i64,
    pub updated_at: i64,
}

/// The path of the embedding key's file under `config_dir`.
pub open spec fn api_key_path_spec(config_dir: Seq<char>) -> Seq<char> {
    config_dir + "/aliyun_api_key.txt"@
}

/// Where the embedding key's file lives under `config_dir`.
pub fn get_api_key_path(config_dir: &str) -> (r: String)
    ensures
        r@ == api_key_path_spec(config_dir@),
{
    let mut p = String::new();
    p.append(config_dir);
    p.append("/aliyun_api_key.txt");
    p
}

/// Whether `c` ends a sentence for chunking purposes.
pub open spec fn is_sentence_sep(c: char) -> bool {
    c == '.' || c == '\u{3002}' || c == '!' || c == '?' || c == '\n'
}

/// Executable test for `is_sentence_sep`.
pub fn is_sentence_sep_char(c: char) -> (r: bool)
    ensures
        r == is_sentence_sep(c),
{
    c == '.' || c == '\u{3002}' || c == '!' || c == '?' || c == '\n'
}

/// The tokens of `s` separated by sentence separators.
pub open spec fn split_sentences_spec(s: Seq<char>) -> Seq<Seq<char>>
    decreases s.len(),
{
    if s.len() == 0 {
        seq![Seq::<char>::empty()]
    } else if is_sentence_sep(s[0]) {
        seq![Seq::<char>::empty()] + split_sentences_spec(s.skip(1))
    } else {
        let rest = split_sentences_spec(s.skip(1));
        seq![seq![s[0]] + rest[0]] + rest.skip(1)
    }
}

proof fn lemma_split_sentences_len(s: Seq<char>)
    ensures
        split_sentences_spec(s).len() >= 1,
    decreases s.len(),
{
    if s.len() > 0 {
        lemma_split_sentences_len(s.skip(1));
    }
}

/// `tokens` with its first token prefixed by `p`.
spec fn sentences_prepend_first(p: Seq<char>, tokens: Seq<Seq<char>>) -> Seq<Seq<char>>
    recommends
        tokens.len() >= 1,
{
    seq![p + tokens[0]] + tokens.skip(1)
}

/// Splits `v` at every sentence separator.
fn split_sentences(v: &Vec<char>) -> (r: Vec<Vec<char>>)
    ensures
        r.deep_view() == split_sentences_spec(v@),
{
    let ghost whole = split_sentences_spec(v@);
    let n: usize = v.len();
    let mut out: Vec<Vec<char>> = Vec::new();
    let mut cur: Vec<char> = Vec::new();
    let mut i: usize = 0;
    proof {
        lemma_split_sentences_len(v@);
        assert(v@.skip(0) =~= v@);
        assert(cur@ + whole[0] =~= whole[0]);
        assert(out.deep_view() + sentences_prepend_first(cur@, whole) =~~= whole);
    }
    while i < n
        invariant
            n == v@.len(),
            i <= n,
            split_sentences_spec(v@.skip(i as int)).len() >= 1,
            whole == split_sentences_spec(v@),
            whole == out.deep_view() + sentences_prepend_first(
                cur@,
                split_sentences_spec(v@.skip(i as int)),
            ),
        decreases n - i,
    {
        let ghost tail = v@.skip(i as int);
        let ghost tail1 = v@.skip(i + 1);
        proof {
            assert(tail[0] == v@[i as int]);
            assert(tail.skip(1) =~= tail1);
            lemma_split_sentences_len(tail1);
        }
        let c = v[i];
        if is_sentence_sep_char(c) {
            let ghost oldout = out.deep_view();
            let ghost donev = cur@;
            let done = cur;
            out.push(done);
            cur = Vec::new();
            proof {
                assert(out.deep_view() =~~= oldout.push(donev));
                assert(split_sentences_spec(tail) == seq![Seq::<char>::empty()]
                    + split_sentences_spec(tail1));
                assert(sentences_prepend_first(donev, split_sentences_spec(tail)) =~= seq![donev]
                    + split_sentences_spec(tail1));
                assert(sentences_prepend_first(cur@, split_sentences_spec(tail1))
                    =~= split_sentences_spec(tail1));
                assert(out.deep_view() + split_sentences_spec(tail1) =~~= oldout + (seq![donev]
                    + split_sentences_spec(tail1)));
            }
        } else {
            let ghost oldcur = cur@;
            cur.push(c);
            proof {
                let rest = split_sentences_spec(tail1);
                assert(split_sentences_spec(tail) == seq![seq![tail[0]] + rest[0]] + rest.skip(1));
                assert(sentences_prepend_first(oldcur, split_sentences_spec(tail)) =~= seq![oldcur
                    + (seq![v@[i as int]] + rest[0])] + rest.skip(1));
                assert(cur@ =~= oldcur + seq![v@[i as int]]);
                assert(cur@ + rest[0] =~= oldcur + (seq![v@[i as int]] + rest[0]));
                assert(sentences_prepend_first(cur@, rest) =~= sentences_prepend_first(
                    oldcur,
                    split_sentences_spec(tail),
                ));
            }
        }
        i = i + 1;
    }
    proof {
        assert(v@.skip(n as int) =~= Seq::<char>::empty());
        assert(split_sentences_spec(Seq::<char>::empty()) == seq![Seq::<char>::empty()]);
        assert(cur@ + Seq::<char>::empty() =~= cur@);
        assert(sentences_prepend_first(cur@, seq![Seq::<char>::empty()]) =~= seq![cur@]);
    }
    let ghost oldout = out.deep_view();
    let ghost curv = cur@;
    out.push(cur);
    proof {
        assert(out.deep_view() =~~= oldout.push(curv));
        assert(oldout.push(curv) =~= oldout + seq![curv]);
        assert(out.deep_view() =~~= whole);
    }
    out
}

/// The tokens whose trimmed text is non-empty, in order.
pub open spec fn content_tokens(ws: Seq<Seq<char>>) -> Seq<Seq<char>>
    decreases ws.len(),
{
    if ws.len() == 0 {
        Seq::<Seq<char>>::empty()
    } else if trim_spec(ws[0]).len() > 0 {
        seq![ws[0]] + content_tokens(ws.skip(1))
    } else {
        content_tokens(ws.skip(1))
    }
}

proof fn lemma_content_tokens_push(ws: Seq<Seq<char>>, x: Seq<char>)
    ensures
        content_tokens(ws.push(x)) == if trim_spec(x).len() > 0 {
            content_tokens(ws).push(x)
        } else {
            content_tokens(ws)
        },
    decreases ws.len(),
{
    if ws.len() == 0 {
        assert(ws.push(x)[0] == x);
        assert(ws.push(x).skip(1) =~= Seq::<Seq<char>>::empty());
        assert(content_tokens(Seq::<Seq<char>>::empty()) =~= Seq::<Seq<char>>::empty());
        if trim_spec(x).len() > 0 {
            assert(content_tokens(ws.push(x)) =~= seq![x] + Seq::<Seq<char>>::empty());
            assert(seq![x] + Seq::<Seq<char>>::empty() =~= content_tokens(ws).push(x));
        } else {
            assert(content_tokens(ws.push(x)) =~= content_tokens(ws));
        }
    } else {
        assert(ws.push(x)[0] == ws[0]);
        assert(ws.push(x).skip(1) =~= ws.skip(1).push(x));
        lemma_content_tokens_push(ws.skip(1), x);
        if trim_spec(ws[0]).len() > 0 && trim_spec(x).len() > 0 {
            assert(seq![ws[0]] + content_tokens(ws.skip(1)).push(x) =~= (seq![ws[0]]
                + content_tokens(ws.skip(1))).push(x));
        }
    }
}

/// The chunking state: finished chunks, the chunk being built, and the
/// running character counter that decides when a chunk closes (each sentence
/// is counted untrimmed, so the counter can run ahead of the chunk's true
/// length).
pub struct ChunkState {
    pub chunks: Seq<Seq<char>>,
    pub cur: Seq<char>,
    pub count: int,
}

/// One sentence folded into the chunking state: when the counter would pass
/// `chunk_size`, the built chunk is emitted and kept (trimmed) as the overlap
/// base; then the trimmed sentence is appended, space-separated.
pub open spec fn chunk_step(st: ChunkState, sentence: Seq<char>, chunk_size: int) -> ChunkState {
    let st1 = if st.count + sentence.len() > chunk_size && st.cur.len() > 0 {
        ChunkState {
            chunks: st.chunks.push(st.cur),
            cur: trim_spec(st.cur),
            count: trim_spec(st.cur).len() as int,
        }
    } else {
        st
    };
    if trim_spec(sentence).len() == 0 {
        st1
    } else if st1.cur.len() > 0 {
        ChunkState {
            chunks: st1.chunks,
            cur: st1.cur + seq![' '] + trim_spec(sentence),
            count: st1.count + 1 + sentence.len(),
        }
    } else {
        ChunkState { chunks: st1.chunks, cur: trim_spec(sentence), count: st1.count + sentence.len() }
    }
}

/// The sentences folded left to right, starting from an empty state.
pub open spec fn chunk_fold(sentences: Seq<Seq<char>>, chunk_size: int) -> ChunkState
    decreases sentences.len(),
{
    if sentences.len() == 0 {
        ChunkState { chunks: Seq::<Seq<char>>::empty(), cur: Seq::<char>::empty(), count: 0 }
    } else {
        chunk_step(
            chunk_fold(sentences.drop_last(), chunk_size),
            sentences.last(),
            chunk_size,
        )
    }
}

/// What `split_text_into_chunks` returns: the text's non-blank sentences
/// folded into chunks, with the unfinished chunk emitted last.
pub open spec fn chunks_spec(text: Seq<char>, chunk_size: int) -> Seq<Seq<char>> {
    let st = chunk_fold(content_tokens(split_sentences_spec(text)), chunk_size);
    if st.cur.len() > 0 {
        st.chunks.push(st.cur)
    } else {
        st.chunks
    }
}

/// Cuts `text` into chunks of roughly `chunk_size` characters, on sentence
/// boundaries, keeping the built-up text as overlap when a chunk closes.
pub fn split_text_into_chunks(text: &str, chunk_size: usize) -> (r: Vec<String>)
    ensures
        r.deep_view() == chunks_spec(text@, chunk_size as int),
{
    let cs = crate::text::chars_of(text);
    let tokens = split_sentences(&cs);
    let ghost all = split_sentences_spec(text@);

    // keep the non-blank sentences
    let mut sentences: Vec<Vec<char>> = Vec::new();
    let tn: usize = tokens.len();
    let mut ti: usize = 0;
    proof {
        assert(all.take(0) =~= Seq::<Seq<char>>::empty());
        assert(sentences.deep_view() =~~= content_tokens(all.take(0)));
    }
    while ti < tn
        invariant
            all == split_sentences_spec(text@),
            tokens.deep_view() == all,
            tn == tokens@.len(),
            ti <= tn,
            sentences.deep_view() == content_tokens(all.take(ti as int)),
        decreases tn - ti,
    {
        let ghost tok = all[ti as int];
        proof {
            assert(tokens@[ti as int].deep_view() =~= tokens@[ti as int]@);
            assert(all.take(ti + 1).drop_last() =~= all.take(ti as int));
            assert(all.take(ti + 1) =~= all.take(ti as int).push(tok));
            lemma_content_tokens_push(all.take(ti as int), tok);
        }
        let trimmed = trim_chars(&tokens[ti]);
        let ghost olds = sentences.deep_view();
        if trimmed.len() > 0 {
            let mut copy: Vec<char> = Vec::new();
            let ln: usize = tokens[ti].len();
            let mut k: usize = 0;
            while k < ln
                invariant
                    ti < tokens@.len(),
                    ln == tokens@[ti as int]@.len(),
                    k <= ln,
                    copy@ == tokens@[ti as int]@.take(k as int),
                decreases ln - k,
            {
                copy.push(tokens[ti][k]);
                k = k + 1;
                proof {
                    assert(copy@ =~= tokens@[ti as int]@.take(k as int));
                }
            }
            proof {
                assert(tokens@[ti as int]@.take(ln as int) =~= tokens@[ti as int]@);
                assert(copy@ =~= tok);
            }
            sentences.push(copy);
            proof {
                assert(sentences.deep_view() =~~= olds.push(tok));
            }
        }
        ti = ti + 1;
    }
    proof {
        assert(all.take(tn as int) =~= all);
    }
    let ghost sent_models = sentences.deep_view();

    // fold the sentences into chunks
    let mut chunks: Vec<String> = Vec::new();
    let mut cur: Vec<char> = Vec::new();
    let mut count: usize = 0;
    let mut maxed: bool = false;
    let n: usize = sentences.len();
    let mut i: usize = 0;
    proof {
        assert(sent_models.take(0) =~= Seq::<Seq<char>>::empty());
        assert(chunks.deep_view() =~= chunk_fold(sent_models.take(0), chunk_size as int).chunks);
    }
    while i < n
        invariant
            sent_models == sentences.deep_view(),
            sent_models == content_tokens(all),
            n == sentences@.len(),
            i <= n,
            chunks.deep_view() == chunk_fold(sent_models.take(i as int), chunk_size as int).chunks,
            cur@ == chunk_fold(sent_models.take(i as int), chunk_size as int).cur,
            maxed == (chunk_fold(sent_models.take(i as int), chunk_size as int).count
                > chunk_size as int),
            !maxed ==> count == chunk_fold(sent_models.take(i as int), chunk_size as int).count,
        decreases n - i,
    {
        let ghost st = chunk_fold(sent_models.take(i as int), chunk_size as int);
        let ghost sentence = sent_models[i as int];
        proof {
            assert(sent_models.take(i + 1).drop_last() =~= sent_models.take(i as int));
            assert(sent_models.take(i + 1) =~= sent_models.take(i as int).push(sentence));
            assert(chunk_fold(sent_models.take(i + 1), chunk_size as int) == chunk_step(
                st,
                sentence,
                chunk_size as int,
            ));
            assert(sentences@[i as int].deep_view() =~= sentences@[i as int]@);
        }
        let sc: usize = sentences[i].len();
        let over = maxed || (sc > chunk_size - count);
        proof {
            assert(over == (st.count + sentence.len() > chunk_size as int));
        }
        if over && cur.len() > 0 {
            let ghost oldchunks = chunks.deep_view();
            let done = collect_string(&cur);
            chunks.push(done);
            let trimmed_cur = trim_chars(&cur);
            proof {
                assert(chunks.deep_view() =~= oldchunks.push(cur@));
            }
            if trimmed_cur.len() > chunk_size {
                maxed = true;
                count = 0;
            } else {
                maxed = false;
                count = trimmed_cur.len();
            }
            cur = trimmed_cur;
        }
        let ghost st1 = if st.count + sentence.len() > chunk_size as int && st.cur.len() > 0 {
            ChunkState {
                chunks: st.chunks.push(st.cur),
                cur: trim_spec(st.cur),
                count: trim_spec(st.cur).len() as int,
            }
        } else {
            st
        };
        proof {
            assert(chunks.deep_view() == st1.chunks);
            assert(cur@ == st1.cur);
            assert(maxed == (st1.count > chunk_size as int));
            assert(!maxed ==> count == st1.count);
        }
        let trimmed_sentence = trim_chars(&sentences[i]);
        if trimmed_sentence.len() > 0 {
            if cur.len() > 0 {
                cur.push(' ');
                let mut k: usize = 0;
                let sl: usize = trimmed_sentence.len();
                let ghost curbase = cur@;
                while k < sl
                    invariant
                        sl == trimmed_sentence@.len(),
                        k <= sl,
                        cur@ == curbase + trimmed_sentence@.take(k as int),
                    decreases sl - k,
                {
                    cur.push(trimmed_sentence[k]);
                    k = k + 1;
                    proof {
                        assert(cur@ =~= curbase + trimmed_sentence@.take(k as int));
                    }
                }
                proof {
                    assert(trimmed_sentence@.take(sl as int) =~= trimmed_sentence@);
                    assert(cur@ =~= st1.cur + seq![' '] + trim_spec(sentence));
                }
                if maxed || sc >= chunk_size - count {
                    maxed = true;
                    count = 0;
                } else {
                    count = count + 1 + sc;
                }
            } else {
                cur = trimmed_sentence;
                if maxed || sc > chunk_size - count {
                    maxed = true;
                    count = 0;
                } else {
                    count = count + sc;
                }
            }
        }
        i = i + 1;
    }
    proof {
        assert(sent_models.take(n as int) =~= sent_models);
    }
    if cur.len() > 0 {
        let ghost oldchunks = chunks.deep_view();
        let done = collect_string(&cur);
        chunks.push(done);
        proof {
            assert(chunks.deep_view() =~= oldchunks.push(cur@));
        }
    }
    chunks
}

} // verus!
