//! Chat templates: rewriting the Python idioms of Hugging Face templates into
//! the template language the runtime renders with.
use vstd::prelude::*;
use crate::config::{Config, chat_template_text};
use crate::error::Error;
use crate::text::{replace_all, replace_all_str};
use vstd::string::StringExecFns;

verus! {

/// The three rewrites applied to a chat template, in order: the split on
/// `</think>`, the `startswith` test and the `endswith` test.
pub open spec fn rust_template(template: Seq<char>) -> Seq<char> {
    let a = replace_all(
        template,
        "message.content.split('</think>')[-1].lstrip('\\n')"@,
        "(message.content | split('</think>'))[-1] | trim"@,
    );
    let b = replace_all(
        a,
        "message.content.startswith('<tool_response>')"@,
        "message.content[:15] == '<tool_response>'"@,
    );
    replace_all(
        b,
        "message.content.endswith('</tool_response>')"@,
        "message.content[-16:] == '</tool_response>'"@,
    )
}

/// Rewrites the Python string methods that Qwen3 templates use into
/// expressions of the template engine.
pub fn convert_python_to_rust_template(template: &str) -> (r: String)
    ensures
        r@ == rust_template(template@),
{
    let from1 = "message.content.split('</think>')[-1].lstrip('\\n')";
    let from2 = "message.content.startswith('<tool_response>')";
    let from3 = "message.content.endswith('</tool_response>')";
    proof {
        reveal_strlit("message.content.split('</think>')[-1].lstrip('\\n')");
        reveal_strlit("message.content.startswith('<tool_response>')");
        reveal_strlit("message.content.endswith('</tool_response>')");
    }
    let a = replace_all_str(template, from1, "(message.content | split('</think>'))[-1] | trim");
    let b = replace_all_str(a.as_str(), from2, "message.content[:15] == '<tool_response>'");
    replace_all_str(b.as_str(), from3, "message.content[-16:] == '</tool_response>'")
}

/// A chat template ready to be rendered.
#[derive(Debug, Clone)]
pub struct ChatTemplate {
    name: String,
    template: String,
}

impl ChatTemplate {
    /// The name the template is registered under.
    pub closed spec fn spec_name(&self) -> Seq<char> {
        self.name@
    }

    /// The template text, already rewritten.
    pub closed spec fn spec_template(&self) -> Seq<char> {
        self.template@
    }

    /// The chat template of a model configuration, rewritten for the template
    /// engine and registered under the name `chat`.
    pub fn new(config: &Config) -> (r: Result<ChatTemplate, Error>)
        ensures
            r matches Ok(t) && t.spec_template() == rust_template(
                chat_template_text(config.tokenizer_custom),
            ) && t.spec_name() == "chat"@,
    {
        let chat_template = config.tokenizer_custom.get_chat_template();
        let template = convert_python_to_rust_template(chat_template);
        Ok(ChatTemplate { template, name: "chat".to_owned() })
    }

    pub fn name(&self) -> (r: &str)
        ensures
            r@ == self.spec_name(),
    {
        self.name.as_str()
    }

    pub fn template(&self) -> (r: &str)
        ensures
            r@ == self.spec_template(),
    {
        self.template.as_str()
    }
}

/// What the template engine produces from the template `source` registered
/// under `name` and rendered with the context that the JSON text `context`
/// describes; `None` where the context is not JSON or the template fails to
/// compile or to render.
pub uninterp spec fn minijinja_render(name: Seq<char>, source: Seq<char>, context: Seq<char>) -> Option<Seq<char>>;

/// Renders with `minijinja`: registers `source` under `name` in a fresh
/// `minijinja::Environment` and calls `minijinja::Template::render` with the
/// context parsed from the JSON text `context`; on failure, the text of the
/// error. The result depends on the three texts alone.
#[verifier::external_body]
fn render_with_minijinja(name: &str, source: &str, context: &str) -> (r: core::result::Result<String, String>)
    ensures
        match minijinja_render(name@, source@, context@) {
            Some(text) => r matches Ok(s) && s@ == text,
            None => r is Err,
        },
{
    let value: serde_json::Value = serde_json::from_str(context).map_err(|e| e.to_string())?;
    let mut env = minijinja::Environment::new();
    env.add_template(name, source).map_err(|e| e.to_string())?;
    let template = env.get_template(name).map_err(|e| e.to_string())?;
    template.render(value).map_err(|e| e.to_string())
}

/// The text of an optional string.
pub open spec fn text_of(o: Option<&str>) -> Option<Seq<char>> {
    match o {
        Some(t) => Some(t@),
        None => None,
    }
}

/// The text of a JSON boolean.
pub open spec fn json_bool(b: bool) -> Seq<char> {
    if b { "true"@ } else { "false"@ }
}

/// The rendering context as a JSON object: the messages, then the tools and
/// the documents where they are given, then the generation-prompt flag where
/// it is given (nested under its own name, as the templates read it).
pub open spec fn context_text(messages: Seq<char>, tools: Option<Seq<char>>, documents: Option<Seq<char>>, add_generation_prompt: Option<bool>) -> Seq<char> {
    "{\"messages\":"@ + messages
        + (match tools { Some(t) => ",\"custom_tools\":"@ + t, None => Seq::<char>::empty() })
        + (match documents { Some(d) => ",\"documents\":"@ + d, None => Seq::<char>::empty() })
        + (match add_generation_prompt {
            Some(b) => ",\"add_generation_prompt\":{\"add_generation_prompt\":"@ + json_bool(b) + "}"@,
            None => Seq::<char>::empty(),
        })
        + "}"@
}

/// Builds the JSON text of a rendering context from the JSON texts of its
/// parts.
pub fn build_context(messages: &str, tools: Option<&str>, documents: Option<&str>, add_generation_prompt: Option<bool>) -> (r: String)
    ensures
        r@ == context_text(messages@, text_of(tools), text_of(documents), add_generation_prompt),
{
    let mut out = String::from_str("{\"messages\":");
    out.append(messages);
    let ghost a = out@;
    match tools {
        Some(t) => {
            out.append(",\"custom_tools\":");
            out.append(t);
        },
        None => {},
    }
    let ghost b = out@;
    match documents {
        Some(d) => {
            out.append(",\"documents\":");
            out.append(d);
        },
        None => {},
    }
    let ghost c = out@;
    match add_generation_prompt {
        Some(flag) => {
            out.append(",\"add_generation_prompt\":{\"add_generation_prompt\":");
            if flag {
                out.append("true");
            } else {
                out.append("false");
            }
            out.append("}");
        },
        None => {},
    }
    out.append("}");
    proof {
        reveal_strlit("{\"messages\":");
        reveal_strlit(",\"custom_tools\":");
        reveal_strlit(",\"documents\":");
        reveal_strlit(",\"add_generation_prompt\":{\"add_generation_prompt\":");
        reveal_strlit("true");
        reveal_strlit("false");
        reveal_strlit("}");
        assert(out@ =~= context_text(messages@, text_of(tools), text_of(documents), add_generation_prompt));
    }
    out
}

/// How the rendering context is put together, one part at a time: the
/// messages alone give `{"messages":…}`; tools, whenever they are given,
/// whatever the documents and the flag, stand as `,"custom_tools":` and their
/// text right after the messages; documents stand right after the messages
/// and tools; the generation-prompt flag stands last, before the closing
/// brace.
pub proof fn lemma_context_parts(
    messages: Seq<char>,
    tools: Option<Seq<char>>,
    documents: Option<Seq<char>>,
    add_generation_prompt: Option<bool>,
)
    ensures
        context_text(messages, None, None, None) == "{\"messages\":"@ + messages + "}"@,
        ({
            let head = "{\"messages\":"@ + messages;
            let without = context_text(messages, None, documents, add_generation_prompt);
            &&& without.take(head.len() as int) == head
            &&& tools matches Some(t) ==> context_text(messages, tools, documents, add_generation_prompt)
                == head + ",\"custom_tools\":"@ + t + without.skip(head.len() as int)
        }),
        ({
            let at = context_text(messages, tools, None, None).len() - 1;
            let without = context_text(messages, tools, None, add_generation_prompt);
            documents matches Some(d) ==> context_text(messages, tools, documents, add_generation_prompt)
                == without.take(at) + ",\"documents\":"@ + d + without.skip(at)
        }),
        ({
            let without = context_text(messages, tools, documents, None);
            &&& add_generation_prompt == Some(true) ==> context_text(messages, tools, documents, add_generation_prompt)
                == without.drop_last() + ",\"add_generation_prompt\":{\"add_generation_prompt\":"@ + "true}}"@
            &&& add_generation_prompt == Some(false) ==> context_text(messages, tools, documents, add_generation_prompt)
                == without.drop_last() + ",\"add_generation_prompt\":{\"add_generation_prompt\":"@ + "false}}"@
        }),
{
    assert(context_text(messages, None, None, None) =~= "{\"messages\":"@ + messages + "}"@);
    lemma_context_tools(messages, tools, documents, add_generation_prompt);
    lemma_context_documents(messages, tools, documents, add_generation_prompt);
    lemma_context_flag(messages, tools, documents, add_generation_prompt);
}

/// The tools part of a context.
spec fn tools_part(tools: Option<Seq<char>>) -> Seq<char> {
    match tools { Some(t) => ",\"custom_tools\":"@ + t, None => Seq::<char>::empty() }
}

/// The documents part of a context.
spec fn documents_part(documents: Option<Seq<char>>) -> Seq<char> {
    match documents { Some(d) => ",\"documents\":"@ + d, None => Seq::<char>::empty() }
}

/// The generation-prompt part of a context.
spec fn flag_part(add_generation_prompt: Option<bool>) -> Seq<char> {
    match add_generation_prompt {
        Some(b) => ",\"add_generation_prompt\":{\"add_generation_prompt\":"@ + json_bool(b) + "}"@,
        None => Seq::<char>::empty(),
    }
}

proof fn lemma_context_split(
    messages: Seq<char>,
    tools: Option<Seq<char>>,
    documents: Option<Seq<char>>,
    add_generation_prompt: Option<bool>,
)
    ensures
        context_text(messages, tools, documents, add_generation_prompt)
            == "{\"messages\":"@ + messages + tools_part(tools) + documents_part(documents)
                + flag_part(add_generation_prompt) + "}"@,
{
}

proof fn lemma_context_tools(
    messages: Seq<char>,
    tools: Option<Seq<char>>,
    documents: Option<Seq<char>>,
    add_generation_prompt: Option<bool>,
)
    ensures
        ({
            let head = "{\"messages\":"@ + messages;
            let without = context_text(messages, None, documents, add_generation_prompt);
            &&& without.take(head.len() as int) == head
            &&& tools matches Some(t) ==> context_text(messages, tools, documents, add_generation_prompt)
                == head + ",\"custom_tools\":"@ + t + without.skip(head.len() as int)
        }),
{
    let head = "{\"messages\":"@ + messages;
    let rest = documents_part(documents) + flag_part(add_generation_prompt) + "}"@;
    lemma_context_split(messages, None, documents, add_generation_prompt);
    lemma_context_split(messages, tools, documents, add_generation_prompt);
    let without = context_text(messages, None, documents, add_generation_prompt);
    assert(without =~= head + rest);
    assert(without.take(head.len() as int) =~= head);
    assert(without.skip(head.len() as int) =~= rest);
    if let Some(t) = tools {
        assert(context_text(messages, tools, documents, add_generation_prompt)
            =~= head + ",\"custom_tools\":"@ + t + rest);
    }
}

proof fn lemma_context_documents(
    messages: Seq<char>,
    tools: Option<Seq<char>>,
    documents: Option<Seq<char>>,
    add_generation_prompt: Option<bool>,
)
    ensures
        ({
            let at = context_text(messages, tools, None, None).len() - 1;
            let without = context_text(messages, tools, None, add_generation_prompt);
            documents matches Some(d) ==> context_text(messages, tools, documents, add_generation_prompt)
                == without.take(at) + ",\"documents\":"@ + d + without.skip(at)
        }),
{
    reveal_strlit("}");
    let front = "{\"messages\":"@ + messages + tools_part(tools);
    let rest = flag_part(add_generation_prompt) + "}"@;
    lemma_context_split(messages, tools, None, None);
    lemma_context_split(messages, tools, None, add_generation_prompt);
    lemma_context_split(messages, tools, documents, add_generation_prompt);
    let at = context_text(messages, tools, None, None).len() - 1;
    assert(context_text(messages, tools, None, None) =~= front + "}"@);
    assert(at == front.len());
    let without = context_text(messages, tools, None, add_generation_prompt);
    assert(without =~= front + rest);
    assert(without.take(at) =~= front);
    assert(without.skip(at) =~= rest);
    if let Some(d) = documents {
        assert(context_text(messages, tools, documents, add_generation_prompt)
            =~= front + ",\"documents\":"@ + d + rest);
    }
}

proof fn lemma_context_flag(
    messages: Seq<char>,
    tools: Option<Seq<char>>,
    documents: Option<Seq<char>>,
    add_generation_prompt: Option<bool>,
)
    ensures
        ({
            let without = context_text(messages, tools, documents, None);
            &&& add_generation_prompt == Some(true) ==> context_text(messages, tools, documents, add_generation_prompt)
                == without.drop_last() + ",\"add_generation_prompt\":{\"add_generation_prompt\":"@ + "true}}"@
            &&& add_generation_prompt == Some(false) ==> context_text(messages, tools, documents, add_generation_prompt)
                == without.drop_last() + ",\"add_generation_prompt\":{\"add_generation_prompt\":"@ + "false}}"@
        }),
{
    reveal_strlit("true");
    reveal_strlit("false");
    reveal_strlit("}");
    reveal_strlit("true}}");
    reveal_strlit("false}}");
    let front = "{\"messages\":"@ + messages + tools_part(tools) + documents_part(documents);
    lemma_context_split(messages, tools, documents, None);
    lemma_context_split(messages, tools, documents, add_generation_prompt);
    let without = context_text(messages, tools, documents, None);
    assert(without =~= front + "}"@);
    assert(without.drop_last() =~= front);
    if add_generation_prompt == Some(true) {
        assert(context_text(messages, tools, documents, add_generation_prompt)
            =~= front + ",\"add_generation_prompt\":{\"add_generation_prompt\":"@ + "true}}"@);
    }
    if add_generation_prompt == Some(false) {
        assert(context_text(messages, tools, documents, add_generation_prompt)
            =~= front + ",\"add_generation_prompt\":{\"add_generation_prompt\":"@ + "false}}"@);
    }
}

impl ChatTemplate {
    /// Renders the template with the messages, tools and documents (each a
    /// JSON array) and the generation-prompt flag; failures of the template
    /// engine are reported as `MiniJinjaError`.
    pub fn render_chat_template(&self, messages: &str, tools: Option<&str>, documents: Option<&str>, add_generation_prompt: Option<bool>) -> (r: Result<String, Error>)
        ensures
            match minijinja_render(
                self.spec_name(),
                self.spec_template(),
                context_text(messages@, text_of(tools), text_of(documents), add_generation_prompt),
            ) {
                Some(text) => r matches Ok(s) && s@ == text,
                None => r matches Err(e) && e is MiniJinjaError,
            },
    {
        let context = build_context(messages, tools, documents, add_generation_prompt);
        match render_with_minijinja(self.name.as_str(), self.template.as_str(), context.as_str()) {
            Ok(s) => Ok(s),
            Err(e) => Err(Error::MiniJinjaError(e)),
        }
    }

    /// Renders the prompt of a conversation, asking the model to answer.
    pub fn apply_chat_template(&self, messages: &str, tools: Option<&str>, documents: Option<&str>) -> (r: Result<String, Error>)
        ensures
            match minijinja_render(
                self.spec_name(),
                self.spec_template(),
                context_text(messages@, text_of(tools), text_of(documents), Some(true)),
            ) {
                Some(text) => r matches Ok(s) && s@ == text,
                None => r matches Err(e) && e is MiniJinjaError,
            },
    {
        self.render_chat_template(messages, tools, documents, Some(true))
    }
}

/// A tool offered to the model: a JSON schema, as its JSON text, or a
/// function that the runtime calls itself.
#[derive(Debug, Clone)]
pub enum Tool {
    Schema(String),
    Function(String),
}

/// The schema texts of the tools, in order; functions are left out.
pub open spec fn schema_texts(tools: Seq<Tool>) -> Seq<Seq<char>>
    decreases tools.len(),
{
    if tools.len() == 0 {
        Seq::empty()
    } else {
        schema_texts(tools.drop_last()) + match tools.last() {
            Tool::Schema(t) => seq![t@],
            Tool::Function(_) => Seq::<Seq<char>>::empty(),
        }
    }
}

/// The items joined with commas between them.
pub open spec fn comma_joined(items: Seq<Seq<char>>) -> Seq<char>
    decreases items.len(),
{
    if items.len() == 0 {
        Seq::empty()
    } else if items.len() == 1 {
        items[0]
    } else {
        comma_joined(items.drop_last()) + ","@ + items.last()
    }
}

/// The JSON array of the tools that carry a schema, as the template's
/// `custom_tools` reads them: their schema texts between brackets, separated
/// by commas.
pub fn tool_schemas_json(tools: &Vec<Tool>) -> (r: String)
    ensures
        r@ == "["@ + comma_joined(schema_texts(tools@)) + "]"@,
{
    let mut out = String::from_str("[");
    let mut any = false;
    let mut i: usize = 0;
    proof {
        reveal_strlit("[");
        reveal_strlit(",");
        reveal_strlit("]");
        assert(tools@.take(0) =~= Seq::<Tool>::empty());
    }
    while i < tools.len()
        invariant
            i <= tools@.len(),
            out@ == "["@ + comma_joined(schema_texts(tools@.take(i as int))),
            any <==> schema_texts(tools@.take(i as int)).len() > 0,
        decreases tools@.len() - i,
    {
        let ghost before = schema_texts(tools@.take(i as int));
        assert(tools@.take(i + 1).drop_last() =~= tools@.take(i as int));
        assert(tools@.take(i + 1).last() == tools@[i as int]);
        match &tools[i] {
            Tool::Schema(t) => {
                let ghost after = before.push(t@);
                assert(schema_texts(tools@.take(i + 1)) =~= after);
                assert(after.drop_last() =~= before);
                if any {
                    out.append(",");
                }
                out.append(t.as_str());
                any = true;
                proof {
                    if before.len() == 0 {
                        assert(comma_joined(after) == t@);
                    }
                }
            },
            Tool::Function(_) => {
                assert(schema_texts(tools@.take(i + 1)) =~= before);
            },
        }
        i = i + 1;
    }
    out.append("]");
    assert(tools@.take(i as int) =~= tools@);
    out
}

} // verus!
