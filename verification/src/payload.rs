//! The requests that are sent to the bridge.

use crate::config::{messages, Config, ConfigView, Message, MessageView};
use crate::json::{
    escaped, escaped_char, field, json_string, law_field_reads_back, law_first_field_reads_back,
    law_literal_reads_back, law_literals_are_distinct, literal, needle, string_after_colon,
};
use crate::text::{is_cc, joined, lemma_position_of, occurs_at, occurs_first_at};
use crate::text_laws::lemma_first;
use vstd::prelude::*;

verus! {

/// A truth value as JSON.
pub open spec fn json_bool(b: bool) -> Seq<char> {
    if b {
        "true"@
    } else {
        "false"@
    }
}

/// A message as JSON.
pub open spec fn message_object(m: MessageView) -> Seq<char> {
    "{\"role\":"@ + literal(m.role) + ",\"content\":"@ + literal(m.content) + "}"@
}

/// The messages of a conversation as JSON, with commas between them.
pub open spec fn message_list(history: Seq<MessageView>) -> Seq<char>
    decreases history.len(),
{
    if history.len() == 0 {
        seq![]
    } else if history.len() == 1 {
        message_object(history[0])
    } else {
        message_list(history.drop_last()) + ","@ + message_object(history.last())
    }
}

/// The request for an answer.
pub open spec fn answer_request(config: ConfigView, history: Seq<MessageView>) -> Seq<char> {
    "{\"model\":"@ + literal(config.model) + ",\"provider\":"@ + literal(config.provider)
        + ",\"ollama_url\":"@ + literal(config.ollama_url) + ",\"temperature\":"@
        + config.temperature + ",\"thinking\":"@ + json_bool(config.thinking)
        + ",\"messages\":["@ + message_list(history) + "]}"@
}

/// The request for the list of models.
pub open spec fn models_request(config: ConfigView) -> Seq<char> {
    "{\"action\":\"list_models\",\"provider\":"@ + literal(config.provider) + ",\"ollama_url\":"@
        + literal(config.ollama_url) + "}"@
}

/// Appends `key` and the JSON string literal of `value`.
fn push_field(out: &mut String, key: &str, value: &str)
    ensures
        final(out)@ == old(out)@ + key@ + literal(value@),
{
    let text = json_string(value);
    out.append(key);
    out.append(text.as_str());
}

/// The request for an answer to a conversation: the model, where it is to be
/// found, how it is to answer, and all messages in their order.
pub fn build_payload(config: &Config, history: &[Message]) -> (r: String)
    ensures
        r@ == answer_request(config@, messages(history@)),
{
    let mut out = String::new();
    push_field(&mut out, "{\"model\":", config.model.as_str());
    push_field(&mut out, ",\"provider\":", config.provider.as_str());
    push_field(&mut out, ",\"ollama_url\":", config.ollama_url.as_str());
    out.append(",\"temperature\":");
    out.append(config.temperature.as_str());
    out.append(",\"thinking\":");
    if config.thinking {
        out.append("true");
    } else {
        out.append("false");
    }
    out.append(",\"messages\":[");
    let ghost front = out@;
    let ghost all = messages(history@);
    let mut index: usize = 0;
    assert(all.take(0) == Seq::<MessageView>::empty());
    assert(front + Seq::<char>::empty() == front);
    while index < history.len()
        invariant
            index <= history@.len(),
            all == messages(history@),
            out@ == front + message_list(all.take(index as int)),
        decreases history.len() - index,
    {
        let ghost upto = all.take(index + 1);
        assert(upto.drop_last() == all.take(index as int));
        assert(upto.last() == history@[index as int]@);
        let ghost before = out@;
        if index > 0 {
            out.append(",");
        }
        let message = &history[index];
        push_field(&mut out, "{\"role\":", message.role.as_str());
        push_field(&mut out, ",\"content\":", message.content.as_str());
        out.append("}");
        proof {
            let object = message_object(message@);
            if index > 0 {
                assert(out@ == before + ","@ + object);
                assert(out@ == front + (message_list(all.take(index as int)) + ","@ + object));
            } else {
                assert(out@ == before + object);
                assert(out@ == front + object);
            }
        }
        index += 1;
    }
    assert(all.take(index as int) == all);
    out.append("]}");
    out
}

/// The request for the list of models of the current provider.
pub fn build_models_payload(config: &Config) -> (r: String)
    ensures
        r@ == models_request(config@),
{
    let mut out = String::new();
    push_field(
        &mut out,
        "{\"action\":\"list_models\",\"provider\":",
        config.provider.as_str(),
    );
    push_field(&mut out, ",\"ollama_url\":", config.ollama_url.as_str());
    out.append("}");
    out
}

// ---------------------------------------------------------------------------
// Laws
// ---------------------------------------------------------------------------

/// The model of a request is read back from it.
pub proof fn law_model_reads_back(config: ConfigView, history: Seq<MessageView>)
    ensures
        field(answer_request(config, history), "model"@) == Some(config.model),
{
    reveal_strlit("{\"model\":");
    reveal_strlit("model");
    assert("{\"model\":"@ == seq!['{'] + needle("model"@) + seq![':']);
    let tail = ",\"provider\":"@ + literal(config.provider) + ",\"ollama_url\":"@ + literal(
        config.ollama_url,
    ) + ",\"temperature\":"@ + config.temperature + ",\"thinking\":"@ + json_bool(config.thinking)
        + ",\"messages\":["@ + message_list(history) + "]}"@;
    law_first_field_reads_back("model"@, config.model, tail);
    assert(answer_request(config, history) == "{\"model\":"@ + literal(config.model) + tail);
}

/// Inside a string literal every quotation mark stands behind a backslash.
proof fn lemma_quotes_are_escaped(s: Seq<char>, k: int)
    requires
        0 <= k < escaped(s).len(),
        escaped(s)[k] == '"',
    ensures
        k > 0,
        escaped(s)[k - 1] == '\\',
    decreases s.len(),
{
    let first = escaped_char(s[0]);
    assert(escaped(s) == first + escaped(s.skip(1)));
    if k >= first.len() {
        assert(escaped(s)[k] == escaped(s.skip(1))[k - first.len()]);
        lemma_quotes_are_escaped(s.skip(1), k - first.len());
        assert(escaped(s)[k - 1] == escaped(s.skip(1))[k - 1 - first.len()]);
    } else {
        assert(first[k] == '"');
    }
}

/// Where a text stands somewhere, it stands somewhere first.
proof fn lemma_first_place(s: Seq<char>, p: Seq<char>, i: int) -> (f: int)
    requires
        occurs_at(s, p, i),
    ensures
        occurs_first_at(s, p, f),
        f <= i,
{
    lemma_first(s, p, i)
}

/// The key of the provider stands first where it is a key, or else where the
/// name of the model ends.
proof fn lemma_provider_key(model: Seq<char>, back: Seq<char>, f: int)
    requires
        occurs_first_at(
            "{\"model\":"@ + literal(model) + ",\"provider\":"@ + back,
            needle("provider"@),
            f,
        ),
    ensures
        ({
            let end = ("{\"model\":"@ + literal(model)).len();
            f + needle("provider"@).len() == end || f == end + 1
        }),
{
    reveal_strlit("{\"model\":");
    reveal_strlit(",\"provider\":");
    reveal_strlit("provider");
    let key = needle("provider"@);
    let head = "{\"model\":"@;
    let front = head + literal(model);
    let line = front + ",\"provider\":"@ + back;
    let end = front.len() as int;
    assert(line.subrange(end + 1, end + 1 + key.len()) == key);
    assert(occurs_at(line, key, end + 1));
    let seen = line.subrange(f, f + key.len());
    assert(seen == key);
    assert(key[0] == '"' && key[1] == 'p' && key[8] == 'r' && key[9] == '"');
    assert(forall|k: int| 0 <= k < 10 ==> key[k] != ',' && key[k] != ':');
    assert forall|k: int| 0 <= k < 10 implies line[f + k] == key[k] by {
        assert(seen[k] == key[k]);
    }
    if f < end + 1 && f + 10 != end {
        assert(line[end] == ',');
        if f <= end && end < f + 10 {
            assert(line[f + (end - f)] == key[end - f]);
        }
        assert(f + 10 < end);
        assert(line[f] == '"' && line[f + 1] == 'p' && line[f + 8] == 'r' && line[f + 9] == '"');
        if f < 9 {
            assert(line[f] == head[f]);
            assert(f == 1 || f == 7);
            assert(line[2] == 'm' && line[8] == ':');
        }
        let k = f + 9 - 10;
        assert(line[f + 9] == escaped(model)[k]);
        lemma_quotes_are_escaped(model, k);
        assert(line[f + 8] == escaped(model)[k - 1]);
    }
}

/// The string behind the first colon.
proof fn lemma_behind_colon(gap: Seq<char>, value: Seq<char>, rest: Seq<char>)
    requires
        !gap.contains(':'),
    ensures
        string_after_colon(gap + seq![':'] + (literal(value) + rest)) == Some(value),
{
    let lit = literal(value) + rest;
    let after = gap + seq![':'] + lit;
    let c = gap.len() as int;
    assert(occurs_first_at(after, seq![':'], c)) by {
        assert(after.subrange(c, c + 1) == seq![':']);
        assert forall|j: int| 0 <= j < c implies !occurs_at(after, seq![':'], j) by {
            assert(after.subrange(j, j + 1)[0] == gap[j]);
        }
    }
    lemma_position_of(after, seq![':'], c);
    assert(after.skip(c + 1) == lit);
    assert(lit[0] == '"');
    law_literal_reads_back(value, rest);
    assert(lit.skip(1) == escaped(value) + seq!['"'] + rest);
}

/// The provider is read back behind the model, whatever follows it.
proof fn lemma_provider_reads_back(model: Seq<char>, provider: Seq<char>, rest: Seq<char>)
    ensures
        field(
            "{\"model\":"@ + literal(model) + ",\"provider\":"@ + (literal(provider) + rest),
            "provider"@,
        ) == Some(provider),
{
    reveal_strlit(",\"provider\":");
    reveal_strlit("provider");
    let key = needle("provider"@);
    let front = "{\"model\":"@ + literal(model);
    let end = front.len() as int;
    let value = literal(provider) + rest;
    assert(",\"provider\":"@ == seq![','] + key + seq![':']);
    let line = front + ",\"provider\":"@ + value;
    assert(line.subrange(end + 1, end + 1 + key.len()) == key);
    let f = lemma_first_place(line, key, end + 1);
    lemma_provider_key(model, value, f);
    lemma_position_of(line, key, f);
    let after = line.skip(f + key.len());
    let none = Seq::<char>::empty();
    if f == end + 1 {
        assert(after == none + seq![':'] + value);
        lemma_behind_colon(none, provider, rest);
    } else {
        let gap = seq![','] + key;
        assert(after == gap + seq![':'] + value);
        assert(!gap.contains(':'));
        lemma_behind_colon(gap, provider, rest);
    }
}

/// The provider of a request is read back from it, whatever the model is
/// called.
#[verifier::spinoff_prover]
#[verifier::rlimit(40)]
pub proof fn law_provider_reads_back(config: ConfigView, history: Seq<MessageView>)
    ensures
        field(answer_request(config, history), "provider"@) == Some(config.provider),
{
    let rest = ",\"ollama_url\":"@ + literal(config.ollama_url) + ",\"temperature\":"@
        + config.temperature + ",\"thinking\":"@ + json_bool(config.thinking)
        + ",\"messages\":["@ + message_list(history) + "]}"@;
    lemma_provider_reads_back(config.model, config.provider, rest);
    assert(answer_request(config, history) == "{\"model\":"@ + literal(config.model)
        + ",\"provider\":"@ + (literal(config.provider) + rest));
}

/// A member of an object: a key, a colon and a value.
pub open spec fn member(key: Seq<char>, value: Seq<char>) -> Seq<char> {
    seq!['"'] + key + seq!['"', ':'] + value
}

/// An object of the given members.
pub open spec fn object_of(members: Seq<Seq<char>>) -> Seq<char> {
    seq!['{'] + joined(members, seq![',']) + seq!['}']
}

/// The messages of a conversation as objects, each with its role and its
/// content.
pub open spec fn message_objects(history: Seq<MessageView>) -> Seq<Seq<char>> {
    Seq::new(
        history.len(),
        |i: int|
            object_of(
                seq![
                    member("role"@, literal(history[i].role)),
                    member("content"@, literal(history[i].content)),
                ],
            ),
    )
}

proof fn lemma_two(a: Seq<char>, b: Seq<char>)
    ensures
        joined(seq![a, b], seq![',']) == a + seq![','] + b,
{
    reveal_with_fuel(joined, 3);
    assert(seq![a, b].drop_last() == seq![a]);
}

proof fn lemma_message_is_object(m: MessageView)
    ensures
        message_object(m) == object_of(
            seq![member("role"@, literal(m.role)), member("content"@, literal(m.content))],
        ),
{
    reveal_strlit("{\"role\":");
    reveal_strlit("role");
    reveal_strlit(",\"content\":");
    reveal_strlit("content");
    reveal_strlit("}");
    let a = member("role"@, literal(m.role));
    let b = member("content"@, literal(m.content));
    lemma_two(a, b);
    assert("{\"role\":"@ + literal(m.role) == seq!['{'] + a);
    assert(",\"content\":"@ + literal(m.content) == seq![','] + b);
    let left = "{\"role\":"@ + literal(m.role);
    let right = ",\"content\":"@ + literal(m.content);
    assert(message_object(m) == left + right + "}"@);
    assert(seq!['{'] + a + (seq![','] + b) + seq!['}'] == seq!['{'] + (a + seq![','] + b) + seq![
        '}',
    ]);
}

proof fn lemma_messages_are_joined(history: Seq<MessageView>)
    ensures
        message_list(history) == joined(message_objects(history), seq![',']),
    decreases history.len(),
{
    reveal_strlit(",");
    assert(","@ == seq![',']);
    let objects = message_objects(history);
    if history.len() > 0 {
        lemma_message_is_object(history.last());
        assert(objects.last() == message_object(history.last()));
        if history.len() > 1 {
            lemma_messages_are_joined(history.drop_last());
            assert(objects.drop_last() == message_objects(history.drop_last()));
        }
    }
}

proof fn lemma_join_more(list: Seq<Seq<char>>, last: Seq<char>, sep: Seq<char>)
    requires
        list.len() > 0,
    ensures
        joined(list.push(last), sep) == joined(list, sep) + sep + last,
{
    assert(list.push(last).drop_last() == list);
}

/// A request for an answer is one JSON object. Its members are the model, the
/// provider, the address of Ollama, the temperature, the wish for thoughts,
/// and the list of all messages, in their order, each with its role and its
/// content.
pub proof fn law_request_is_an_object(c: ConfigView, history: Seq<MessageView>)
    ensures
        answer_request(c, history) == object_of(
            seq![
                member("model"@, literal(c.model)),
                member("provider"@, literal(c.provider)),
                member("ollama_url"@, literal(c.ollama_url)),
                member("temperature"@, c.temperature),
                member(
                    "thinking"@,
                    if c.thinking {
                        "true"@
                    } else {
                        "false"@
                    },
                ),
                member(
                    "messages"@,
                    seq!['['] + joined(message_objects(history), seq![',']) + seq![']'],
                ),
            ],
        ),
{
    lemma_messages_are_joined(history);
    lemma_request_head(c);
    let sep = seq![','];
    let m1 = member("model"@, literal(c.model));
    let m2 = member("provider"@, literal(c.provider));
    let m3 = member("ollama_url"@, literal(c.ollama_url));
    let m4 = member("temperature"@, c.temperature);
    let m5 = member("thinking"@, json_bool(c.thinking));
    let list = message_list(history);
    let m6 = member("messages"@, seq!['['] + list + seq![']']);
    let l1 = seq![m1];
    let l2 = l1.push(m2);
    let l3 = l2.push(m3);
    let l4 = l3.push(m4);
    let l5 = l4.push(m5);
    let l6 = l5.push(m6);
    assert(joined(l1, sep) == m1);
    lemma_join_more(l1, m2, sep);
    lemma_join_more(l2, m3, sep);
    lemma_join_more(l3, m4, sep);
    lemma_join_more(l4, m5, sep);
    lemma_join_more(l5, m6, sep);
    assert(l6 == seq![m1, m2, m3, m4, m5, m6]);
    let head = joined(l5, sep);
    reveal_strlit(",\"messages\":[");
    reveal_strlit("messages");
    reveal_strlit("]}");
    assert(",\"messages\":["@ == sep + (seq!['"'] + "messages"@ + seq!['"', ':']) + seq!['[']);
    let front = "{\"model\":"@ + literal(c.model) + ",\"provider\":"@ + literal(c.provider)
        + ",\"ollama_url\":"@ + literal(c.ollama_url) + ",\"temperature\":"@ + c.temperature
        + ",\"thinking\":"@ + json_bool(c.thinking);
    assert(front == seq!['{'] + head);
    assert(answer_request(c, history) == front + (",\"messages\":["@ + list + "]}"@));
    assert(",\"messages\":["@ + list + "]}"@ == sep + m6 + seq!['}']);
    assert(front + (sep + m6 + seq!['}']) == seq!['{'] + (head + sep + m6) + seq!['}']);
}

/// The members of a request up to the messages.
proof fn lemma_request_head(c: ConfigView)
    ensures
        ({
            let sep = seq![','];
            let m1 = member("model"@, literal(c.model));
            let m2 = member("provider"@, literal(c.provider));
            let m3 = member("ollama_url"@, literal(c.ollama_url));
            let m4 = member("temperature"@, c.temperature);
            let m5 = member("thinking"@, json_bool(c.thinking));
            "{\"model\":"@ + literal(c.model) + ",\"provider\":"@ + literal(c.provider)
                + ",\"ollama_url\":"@ + literal(c.ollama_url) + ",\"temperature\":"@
                + c.temperature + ",\"thinking\":"@ + json_bool(c.thinking) == seq!['{'] + (m1
                + sep + m2 + sep + m3 + sep + m4 + sep + m5)
        }),
{
    reveal_strlit("{\"model\":");
    reveal_strlit("model");
    reveal_strlit(",\"provider\":");
    reveal_strlit("provider");
    reveal_strlit(",\"ollama_url\":");
    reveal_strlit("ollama_url");
    reveal_strlit(",\"temperature\":");
    reveal_strlit("temperature");
    reveal_strlit(",\"thinking\":");
    reveal_strlit("thinking");
    let sep = seq![','];
    let m1 = member("model"@, literal(c.model));
    let m2 = member("provider"@, literal(c.provider));
    let m3 = member("ollama_url"@, literal(c.ollama_url));
    let m4 = member("temperature"@, c.temperature);
    let m5 = member("thinking"@, json_bool(c.thinking));
    assert("{\"model\":"@ + literal(c.model) == seq!['{'] + m1);
    lemma_member(",\"provider\":"@, "provider"@, literal(c.provider));
    lemma_member(",\"ollama_url\":"@, "ollama_url"@, literal(c.ollama_url));
    lemma_member(",\"temperature\":"@, "temperature"@, c.temperature);
    lemma_member(",\"thinking\":"@, "thinking"@, json_bool(c.thinking));
    lemma_chain("{\"model\":"@ + literal(c.model), seq!['{'], m1, ",\"provider\":"@, literal(
        c.provider,
    ), m2);
    let a2 = m1 + sep + m2;
    lemma_chain("{\"model\":"@ + literal(c.model) + ",\"provider\":"@ + literal(c.provider), seq![
        '{',
    ], a2, ",\"ollama_url\":"@, literal(c.ollama_url), m3);
    let a3 = a2 + sep + m3;
    lemma_chain(
        "{\"model\":"@ + literal(c.model) + ",\"provider\":"@ + literal(c.provider)
            + ",\"ollama_url\":"@ + literal(c.ollama_url),
        seq!['{'],
        a3,
        ",\"temperature\":"@,
        c.temperature,
        m4,
    );
    let a4 = a3 + sep + m4;
    lemma_chain(
        "{\"model\":"@ + literal(c.model) + ",\"provider\":"@ + literal(c.provider)
            + ",\"ollama_url\":"@ + literal(c.ollama_url) + ",\"temperature\":"@ + c.temperature,
        seq!['{'],
        a4,
        ",\"thinking\":"@,
        json_bool(c.thinking),
        m5,
    );
}

proof fn lemma_member(key: Seq<char>, name: Seq<char>, value: Seq<char>)
    requires
        key =~= seq![',', '"'] + name + seq!['"', ':'],
    ensures
        key + value == seq![','] + member(name, value),
{
    assert(key + value == seq![','] + member(name, value));
}

/// One more member behind those that there are.
proof fn lemma_chain(
    text: Seq<char>,
    open: Seq<char>,
    before: Seq<char>,
    key: Seq<char>,
    value: Seq<char>,
    m: Seq<char>,
)
    requires
        text == open + before,
        key + value == seq![','] + m,
    ensures
        text + key + value == open + (before + seq![','] + m),
{
    assert(text + key + value == text + (key + value));
    assert(open + before + (seq![','] + m) == open + (before + seq![','] + m));
}

/// A request for models is one JSON object that says what it is for, for which
/// provider, and at which address.
pub proof fn law_models_request_is_an_object(c: ConfigView)
    ensures
        models_request(c) == object_of(
            seq![
                member("action"@, seq!['"'] + "list_models"@ + seq!['"']),
                member("provider"@, literal(c.provider)),
                member("ollama_url"@, literal(c.ollama_url)),
            ],
        ),
{
    reveal_strlit("{\"action\":\"list_models\",\"provider\":");
    reveal_strlit("action");
    reveal_strlit("list_models");
    reveal_strlit("provider");
    reveal_strlit(",\"ollama_url\":");
    reveal_strlit("ollama_url");
    reveal_strlit("}");
    let sep = seq![','];
    let m1 = member("action"@, seq!['"'] + "list_models"@ + seq!['"']);
    let m2 = member("provider"@, literal(c.provider));
    let m3 = member("ollama_url"@, literal(c.ollama_url));
    let l1 = seq![m1];
    let l2 = l1.push(m2);
    assert(joined(l1, sep) == m1);
    lemma_join_more(l1, m2, sep);
    lemma_join_more(l2, m3, sep);
    assert(l2.push(m3) == seq![m1, m2, m3]);
    assert("{\"action\":\"list_models\",\"provider\":"@ + literal(c.provider) == seq!['{'] + (m1
        + sep + m2));
    lemma_member(",\"ollama_url\":"@, "ollama_url"@, literal(c.ollama_url));
    lemma_chain(
        "{\"action\":\"list_models\",\"provider\":"@ + literal(c.provider),
        seq!['{'],
        m1 + sep + m2,
        ",\"ollama_url\":"@,
        literal(c.ollama_url),
        m3,
    );
}

/// A request for models says that it is one, and for which provider.
pub proof fn law_models_request_reads_back(config: ConfigView)
    ensures
        field(models_request(config), "action"@) == Some("list_models"@),
        field(models_request(config), "provider"@) == Some(config.provider),
{
    reveal_strlit("{\"action\":\"list_models\",\"provider\":");
    reveal_strlit("action");
    reveal_strlit("list_models");
    reveal_strlit("provider");
    let none = Seq::<char>::empty();
    let rest = ",\"ollama_url\":"@ + literal(config.ollama_url) + "}"@;
    lemma_nothing_to_escape("list_models"@);
    assert(literal("list_models"@) == needle("list_models"@));
    let first = ",\"provider\":"@ + literal(config.provider) + rest;
    reveal_strlit(",\"provider\":");
    assert(models_request(config) == seq!['{'] + needle("action"@) + seq![':'] + literal(
        "list_models"@,
    ) + first);
    law_first_field_reads_back("action"@, "list_models"@, first);
    let key = needle("provider"@);
    let head = seq!['{'] + needle("action"@) + seq![':'] + literal("list_models"@) + seq![','];
    let line = head + key + none + seq![':'] + none + literal(config.provider) + rest;
    assert(models_request(config) == line);
    assert(occurs_first_at(line, key, head.len() as int)) by {
        assert(line.subrange(head.len() as int, (head.len() + key.len()) as int) == key);
        assert forall|j: int| 0 <= j < head.len() implies !occurs_at(line, key, j) by {
            if occurs_at(line, key, j) {
                assert(line.subrange(j, j + key.len())[0] == '"');
                assert(line.subrange(j, j + key.len())[1] == 'p');
                assert(line[j] == head[j] && line[j + 1] == 'p');
            }
        }
    }
    law_field_reads_back(head, "provider"@, none, none, config.provider, rest);
}

/// A text without quotation marks, backslashes and control characters stands
/// for itself.
proof fn lemma_nothing_to_escape(s: Seq<char>)
    requires
        forall|i: int| 0 <= i < s.len() ==> s[i] != '"' && s[i] != '\\' && !is_cc(s[i]),
    ensures
        escaped(s) == s,
    decreases s.len(),
{
    if s.len() > 0 {
        lemma_nothing_to_escape(s.skip(1));
        assert(seq![s[0]] + s.skip(1) == s);
    }
}

/// Requests for models are told apart by their provider and its address.
pub proof fn law_models_requests_are_distinct(c: ConfigView, d: ConfigView)
    requires
        models_request(c) == models_request(d),
    ensures
        c.provider == d.provider,
        c.ollama_url == d.ollama_url,
{
    let k1 = "{\"action\":\"list_models\",\"provider\":"@;
    let k2 = ",\"ollama_url\":"@;
    let end = "}"@;
    let c2 = k2 + (literal(c.ollama_url) + end);
    let d2 = k2 + (literal(d.ollama_url) + end);
    assert(models_request(c) == k1 + (literal(c.provider) + c2));
    assert(models_request(d) == k1 + (literal(d.provider) + d2));
    lemma_strip(k1, literal(c.provider) + c2, literal(d.provider) + d2);
    law_literals_are_distinct(c.provider, c2, d.provider, d2);
    lemma_strip(k2, literal(c.ollama_url) + end, literal(d.ollama_url) + end);
    law_literals_are_distinct(c.ollama_url, end, d.ollama_url, end);
}

/// A list of messages begins with the first message.
proof fn lemma_message_list_first(history: Seq<MessageView>)
    requires
        history.len() >= 2,
    ensures
        message_list(history) == message_object(history[0]) + ","@ + message_list(history.skip(1)),
    decreases history.len(),
{
    let init = history.drop_last();
    let rest = history.skip(1);
    assert(rest.last() == history.last());
    if history.len() == 2 {
        assert(init.len() == 1 && init[0] == history[0]);
        assert(rest.len() == 1 && rest[0] == history.last());
        assert(message_list(init) == message_object(history[0]));
        assert(message_list(rest) == message_object(history.last()));
    } else {
        lemma_message_list_first(init);
        assert(init.skip(1) == rest.drop_last());
        assert(init[0] == history[0]);
        let first = message_object(history[0]);
        let middle = message_list(rest.drop_last());
        let last = message_object(history.last());
        assert(first + ","@ + middle + ","@ + last == first + ","@ + (middle + ","@ + last));
    }
}

/// Where two texts begin alike, equal texts have equal remainders.
proof fn lemma_strip(a: Seq<char>, x: Seq<char>, y: Seq<char>)
    requires
        a + x == a + y,
    ensures
        x == y,
{
    assert((a + x).skip(a.len() as int) == x);
    assert((a + y).skip(a.len() as int) == y);
}

/// A message and what follows it, taken apart from the beginning.
proof fn lemma_message_parts(m: MessageView, x: Seq<char>)
    ensures
        message_object(m) + x == "{\"role\":"@ + (literal(m.role) + (",\"content\":"@ + (literal(
            m.content,
        ) + ("}"@ + x)))),
{
    let front = "{\"role\":"@ + literal(m.role);
    let back = ",\"content\":"@ + (literal(m.content) + ("}"@ + x));
    assert(message_object(m) + x == front + back);
    assert(front + back == "{\"role\":"@ + (literal(m.role) + back));
}

/// Messages are told apart by what they are written as.
proof fn lemma_message_objects_are_distinct(
    m: MessageView,
    x: Seq<char>,
    n: MessageView,
    y: Seq<char>,
)
    requires
        message_object(m) + x == message_object(n) + y,
    ensures
        m == n,
        x == y,
{
    lemma_message_parts(m, x);
    lemma_message_parts(n, y);
    let key = ",\"content\":"@;
    let close = "}"@;
    let m2 = literal(m.content) + (close + x);
    let n2 = literal(n.content) + (close + y);
    lemma_strip("{\"role\":"@, literal(m.role) + (key + m2), literal(n.role) + (key + n2));
    law_literals_are_distinct(m.role, key + m2, n.role, key + n2);
    lemma_strip(key, m2, n2);
    law_literals_are_distinct(m.content, close + x, n.content, close + y);
    lemma_strip(close, x, y);
}

/// What follows the first message in a list that ends with `]}`.
spec fn after_first(history: Seq<MessageView>) -> Seq<char> {
    if history.len() == 1 {
        "]}"@
    } else {
        ","@ + (message_list(history.skip(1)) + "]}"@)
    }
}

proof fn lemma_list_opens(history: Seq<MessageView>)
    requires
        history.len() > 0,
    ensures
        message_list(history) + "]}"@ == message_object(history[0]) + after_first(history),
        message_list(history).len() > 0,
{
    if history.len() > 1 {
        lemma_message_list_first(history);
        let first = message_object(history[0]);
        let rest = message_list(history.skip(1));
        assert(first + ","@ + rest + "]}"@ == first + (","@ + (rest + "]}"@)));
    }
    assert(message_object(history[0]).len() > 0);
}

/// Conversations are told apart by what they are written as.
proof fn lemma_lists_are_distinct(g: Seq<MessageView>, h: Seq<MessageView>)
    requires
        message_list(g) + "]}"@ == message_list(h) + "]}"@,
    ensures
        g == h,
    decreases g.len(),
{
    if g.len() > 0 {
        lemma_list_opens(g);
    }
    if h.len() > 0 {
        lemma_list_opens(h);
    }
    assert((message_list(g) + "]}"@).len() == message_list(g).len() + "]}"@.len());
    assert((message_list(h) + "]}"@).len() == message_list(h).len() + "]}"@.len());
    if g.len() == 0 || h.len() == 0 {
        assert(g.len() == 0 && h.len() == 0);
        assert(g == h);
    } else {
        lemma_message_objects_are_distinct(g[0], after_first(g), h[0], after_first(h));
        reveal_strlit(",");
        reveal_strlit("]}");
        assert(g.len() > 1 ==> after_first(g)[0] == ',');
        assert(h.len() > 1 ==> after_first(h)[0] == ',');
        if g.len() > 1 {
            assert(h.len() > 1);
            lemma_strip(
                ","@,
                message_list(g.skip(1)) + "]}"@,
                message_list(h.skip(1)) + "]}"@,
            );
            lemma_lists_are_distinct(g.skip(1), h.skip(1));
            assert(g == seq![g[0]] + g.skip(1));
            assert(h == seq![h[0]] + h.skip(1));
        } else {
            assert(h.len() == 1);
            assert(g == h);
        }
    }
}

/// Texts without a comma are told apart by what they are in front of one.
proof fn lemma_up_to_comma(a: Seq<char>, x: Seq<char>, b: Seq<char>, y: Seq<char>)
    requires
        a + x == b + y,
        x.len() > 0 && x[0] == ',',
        y.len() > 0 && y[0] == ',',
        !a.contains(','),
        !b.contains(','),
    ensures
        a == b,
        x == y,
{
    if a.len() < b.len() {
        assert((a + x)[a.len() as int] == ',');
        assert(b[a.len() as int] == ',');
    } else if b.len() < a.len() {
        assert((b + y)[b.len() as int] == ',');
        assert(a[b.len() as int] == ',');
    } else {
        assert((a + x).take(a.len() as int) == a);
        assert((b + y).take(a.len() as int) == b);
        lemma_strip(a, x, y);
    }
}

/// A request behind the key of the temperature.
spec fn temperature_on(c: ConfigView, g: Seq<MessageView>) -> Seq<char> {
    c.temperature + (",\"thinking\":"@ + (json_bool(c.thinking) + (",\"messages\":["@ + (
    message_list(g) + "]}"@))))
}

/// A request behind the key of the provider.
spec fn provider_on(c: ConfigView, g: Seq<MessageView>) -> Seq<char> {
    literal(c.provider) + (",\"ollama_url\":"@ + (literal(c.ollama_url) + (",\"temperature\":"@
        + temperature_on(c, g))))
}

/// A request, taken apart from its beginning.
#[verifier::spinoff_prover]
#[verifier::rlimit(40)]
proof fn lemma_request_parts(c: ConfigView, g: Seq<MessageView>)
    ensures
        answer_request(c, g) == "{\"model\":"@ + (literal(c.model) + (",\"provider\":"@
            + provider_on(c, g))),
{
    let head = "{\"model\":"@ + literal(c.model) + ",\"provider\":"@ + literal(c.provider)
        + ",\"ollama_url\":"@ + literal(c.ollama_url) + ",\"temperature\":"@;
    assert(answer_request(c, g) == head + temperature_on(c, g));
    assert(head + temperature_on(c, g) == "{\"model\":"@ + (literal(c.model) + (",\"provider\":"@
        + provider_on(c, g))));
}

/// Equal requests agree from the temperature on.
proof fn lemma_equal_from_temperature_on(
    c: ConfigView,
    g: Seq<MessageView>,
    d: ConfigView,
    h: Seq<MessageView>,
)
    requires
        temperature_on(c, g) == temperature_on(d, h),
        !c.temperature.contains(','),
        !d.temperature.contains(','),
    ensures
        c.temperature == d.temperature,
        c.thinking == d.thinking,
        g == h,
{
    let k5 = ",\"thinking\":"@;
    let k6 = ",\"messages\":["@;
    let c6 = message_list(g) + "]}"@;
    let d6 = message_list(h) + "]}"@;
    let c5 = json_bool(c.thinking) + (k6 + c6);
    let d5 = json_bool(d.thinking) + (k6 + d6);
    assert(k5.len() > 0 && k5[0] == ',') by {
        reveal_strlit(",\"thinking\":");
    }
    assert((k5 + c5)[0] == ',' && (k5 + d5)[0] == ',');
    lemma_up_to_comma(c.temperature, k5 + c5, d.temperature, k5 + d5);
    lemma_strip(k5, c5, d5);
    assert(c.thinking == d.thinking) by {
        reveal_strlit("true");
        reveal_strlit("false");
        assert(c5[0] == json_bool(c.thinking)[0]);
        assert(d5[0] == json_bool(d.thinking)[0]);
    }
    lemma_strip(json_bool(c.thinking), k6 + c6, k6 + d6);
    lemma_strip(k6, c6, d6);
    lemma_lists_are_distinct(g, h);
}

/// Nothing is lost or confused on the way to the bridge: equal requests ask
/// the same model of the same provider, at the same address, with the same
/// temperature and the same wish for thoughts, about the same conversation.
/// (A decimal number holds no comma.)
pub proof fn law_requests_are_distinct(
    c: ConfigView,
    g: Seq<MessageView>,
    d: ConfigView,
    h: Seq<MessageView>,
)
    requires
        answer_request(c, g) == answer_request(d, h),
        !c.temperature.contains(','),
        !d.temperature.contains(','),
    ensures
        c.model == d.model,
        c.provider == d.provider,
        c.ollama_url == d.ollama_url,
        c.temperature == d.temperature,
        c.thinking == d.thinking,
        g == h,
{
    lemma_request_parts(c, g);
    lemma_request_parts(d, h);
    let k1 = "{\"model\":"@;
    let k2 = ",\"provider\":"@;
    let k3 = ",\"ollama_url\":"@;
    let k4 = ",\"temperature\":"@;
    let c4 = k4 + temperature_on(c, g);
    let d4 = k4 + temperature_on(d, h);
    let c2 = provider_on(c, g);
    let d2 = provider_on(d, h);
    lemma_strip(k1, literal(c.model) + (k2 + c2), literal(d.model) + (k2 + d2));
    law_literals_are_distinct(c.model, k2 + c2, d.model, k2 + d2);
    lemma_strip(k2, c2, d2);
    let c3 = k3 + (literal(c.ollama_url) + c4);
    let d3 = k3 + (literal(d.ollama_url) + d4);
    law_literals_are_distinct(c.provider, c3, d.provider, d3);
    lemma_strip(k3, literal(c.ollama_url) + c4, literal(d.ollama_url) + d4);
    law_literals_are_distinct(c.ollama_url, c4, d.ollama_url, d4);
    lemma_strip(k4, temperature_on(c, g), temperature_on(d, h));
    lemma_equal_from_temperature_on(c, g, d, h);
}

} // verus!
