//! The built-in tools, resources and prompt: typical loads of an agent.

use serde_json::Value;
use vstd::prelude::*;
use vstd::utf8::*;
use crate::json;
use crate::json::JsonView;
use crate::message::{
    CallToolResult, ContentBlock, GetPromptResult, Prompt, PromptArgument, PromptMessage,
};
use crate::text;
use crate::tools::{PromptHandler, RegistryView, ToolHandler, ToolRegistry};

verus! {

/// The built-in tools, and one place for a tool of another kind.
pub enum BuiltinTool<X> {
    /// Gives the message back.
    Echo,
    /// Finds passages in the knowledge base.
    KbSearch,
    /// Fetches a whole document of about 64 KiB.
    KbDump,
    /// Makes a text of a given size.
    KbBlob,
    /// Tells how a device is doing.
    DeviceStatus,
    Custom(X),
}

/// The size of a fetched document.
pub const DUMP_SIZE: usize = 65_536;

/// The largest text that is made, in KiB.
pub const MAX_BLOB_KB: u64 = 4096;

/// The length of a text in bytes.
pub open spec fn byte_len(s: Seq<char>) -> nat {
    encode_utf8(s).len()
}

/// What a long text is made of.
pub enum Passage<'a> {
    /// A passage that was found for a query.
    Found(&'a str),
    /// A passage of a document.
    Document(&'a str),
    /// A passage of a text of a given size, by its seed.
    Sample(u64),
}

/// A `Passage` with its text as a sequence of characters.
pub enum PassageView {
    Found(Seq<char>),
    Document(Seq<char>),
    Sample(u64),
}

impl<'a> View for Passage<'a> {
    type V = PassageView;

    open spec fn view(&self) -> PassageView {
        match *self {
            Passage::Found(query) => PassageView::Found(query@),
            Passage::Document(doc_id) => PassageView::Document(doc_id@),
            Passage::Sample(seed) => PassageView::Sample(seed),
        }
    }
}

impl PassageView {
    /// Passage number `i`.
    pub open spec fn line(self, i: nat) -> Seq<char> {
        match self {
            PassageView::Found(query) => "[doc-"@ + text::decimal(i) + "] 关于「"@ + query
                + "」的检索结果：OpenHarmony 是面向万物智联时代的开源操作系统，支持分布式软总线、跨设备协同与统一生态。本片段为知识库中与查询相关的文档内容，段落编号 "@
                + text::decimal(i) + "，包含背景介绍、接口说明与示例代码。\n"@,
            PassageView::Document(doc_id) => "["@ + doc_id + "#"@ + text::decimal(i)
                + "] OpenHarmony 分布式软总线提供设备发现、连接、组网与传输能力，应用无需关心底层通信细节即可实现跨设备调用。本段为文档正文第 "@
                + text::decimal(i) + " 段，含接口定义、参数说明、错误码表与示例代码片段。\n"@,
            PassageView::Sample(seed) => "[blob#"@ + text::decimal(seed as nat) + ":"@ + text::decimal(
                i,
            )
                + "] OpenHarmony 泛在 OS 原生 MCP 大 payload 传输样本段落，含接口定义、参数说明与示例代码，用于衡量共享内存通道随负载扩展性。\n"@,
        }
    }

    /// The first `n` passages, one behind the other.
    pub open spec fn lines(self, n: nat) -> Seq<char>
        decreases n,
    {
        if n == 0 {
            Seq::empty()
        } else {
            self.lines((n - 1) as nat) + self.line((n - 1) as nat)
        }
    }

    /// Whether `s` is as many passages as it takes to reach `size` bytes.
    pub open spec fn fills(self, size: nat, s: Seq<char>) -> bool {
        exists|n: nat|
            s == #[trigger] self.lines(n) && byte_len(s) >= size && (n > 0 ==> byte_len(
                self.lines((n - 1) as nat),
            ) < size)
    }

    /// A passage is not empty.
    proof fn lemma_line_not_empty(self, i: nat)
        ensures
            self.line(i).len() > 0,
    {
        text::lemma_digits_ascii(i, 10);
    }
}

impl<'a> Passage<'a> {
    /// Appends passage number `i`.
    fn push_line(&self, out: &mut String, i: u64)
        ensures
            final(out)@ == old(out)@ + self@.line(i as nat),
    {
        match self {
            Passage::Found(query) => {
                out.append("[doc-");
                text::push_decimal(out, i);
                out.append("] 关于「");
                out.append(query);
                out.append(
                    "」的检索结果：OpenHarmony 是面向万物智联时代的开源操作系统，支持分布式软总线、跨设备协同与统一生态。本片段为知识库中与查询相关的文档内容，段落编号 ",
                );
                text::push_decimal(out, i);
                out.append("，包含背景介绍、接口说明与示例代码。\n");
            },
            Passage::Document(doc_id) => {
                out.append("[");
                out.append(doc_id);
                out.append("#");
                text::push_decimal(out, i);
                out.append(
                    "] OpenHarmony 分布式软总线提供设备发现、连接、组网与传输能力，应用无需关心底层通信细节即可实现跨设备调用。本段为文档正文第 ",
                );
                text::push_decimal(out, i);
                out.append(" 段，含接口定义、参数说明、错误码表与示例代码片段。\n");
            },
            Passage::Sample(seed) => {
                out.append("[blob#");
                text::push_decimal(out, *seed);
                out.append(":");
                text::push_decimal(out, i);
                out.append(
                    "] OpenHarmony 泛在 OS 原生 MCP 大 payload 传输样本段落，含接口定义、参数说明与示例代码，用于衡量共享内存通道随负载扩展性。\n",
                );
            },
        }
        assert(out@ =~= old(out)@ + self@.line(i as nat));
    }

    /// The first `n` passages.
    fn take_lines(&self, n: u64) -> (out: String)
        ensures
            out@ == self@.lines(n as nat),
    {
        let mut out: String = String::new();
        let mut i: u64 = 0;
        while i < n
            invariant
                i <= n,
                out@ == self@.lines(i as nat),
            decreases n - i,
        {
            self.push_line(&mut out, i);
            i = i + 1;
        }
        out
    }

    /// As many passages as it takes to reach `size` bytes.
    fn fill(&self, size: usize) -> (out: String)
        ensures
            self@.fills(size as nat, out@),
    {
        let mut out: String = String::new();
        let mut i: u64 = 0;
        assert(byte_len(out@) == 0);
        while out.as_str().as_bytes().len() < size
            invariant
                out@ == self@.lines(i as nat),
                byte_len(out@) >= i,
                i > 0 ==> byte_len(self@.lines((i - 1) as nat)) < size,
            decreases
                (if byte_len(out@) < size {
                    size - byte_len(out@)
                } else {
                    0
                }),
        {
            let ghost before = out@;
            assert(byte_len(before) < size);
            self.push_line(&mut out, i);
            proof {
                self@.lemma_line_not_empty(i as nat);
                text::lemma_encode_joined(before, self@.line(i as nat));
                lemma_bytes_of_text(self@.line(i as nat));
            }
            i = i + 1;
        }
        assert(self@.fills(size as nat, out@)) by {
            assert(out@ == self@.lines(i as nat));
        }
        out
    }
}

/// A text has at least as many bytes as characters.
proof fn lemma_bytes_of_text(s: Seq<char>)
    ensures
        byte_len(s) >= s.len(),
    decreases s.len(),
{
    if s.len() > 0 {
        lemma_bytes_of_text(s.drop_first());
    }
}

/// The first place at or behind `size` at which a text may be cut.
pub open spec fn is_cut(full: Seq<u8>, size: int, cut: int) -> bool {
    &&& size <= cut <= full.len()
    &&& is_char_boundary(full, cut)
    &&& forall|k: int| size <= k < cut ==> !#[trigger] is_char_boundary(full, k)
}

/// Cuts a text at the first place at or behind `size` bytes where that is
/// possible.
fn cut_text(full: &str, size: usize) -> (out: String)
    requires
        size <= byte_len(full@),
    ensures
        exists|cut: int| #[trigger]
            is_cut(encode_utf8(full@), size as int, cut) && encode_utf8(out@) == encode_utf8(
                full@,
            ).take(cut),
{
    let len: usize = full.as_bytes().len();
    let mut cut: usize = size;
    proof {
        encode_utf8_valid_utf8(full@);
        is_char_boundary_start_end_of_seq(encode_utf8(full@));
    }
    while cut < len && !full.is_char_boundary(cut)
        invariant
            size <= cut <= len,
            len == encode_utf8(full@).len(),
            forall|k: int| size <= k < cut ==> !#[trigger] is_char_boundary(encode_utf8(full@), k),
        decreases len - cut,
    {
        cut = cut + 1;
    }
    let (head, _tail): (&str, &str) = full.split_at(cut);
    let out: String = head.to_owned();
    proof {
        assert(is_cut(encode_utf8(full@), size as int, cut as int));
        assert(encode_utf8(out@) =~= encode_utf8(full@).take(cut as int));
    }
    out
}

/// The size of a text of the given number of KiB, which is between 1 and the
/// largest.
pub open spec fn blob_size(size_kb: u64) -> nat {
    (if size_kb < 1 {
        1
    } else if size_kb > MAX_BLOB_KB {
        MAX_BLOB_KB as nat
    } else {
        size_kb as nat
    }) * 1024
}

/// Whether a text of a given size is the passages `full`, cut at `cut`.
pub open spec fn is_blob(seed: u64, size: nat, full: Seq<char>, cut: int, out: Seq<char>) -> bool {
    &&& PassageView::Sample(seed).fills(size, full)
    &&& is_cut(encode_utf8(full), size as int, cut)
    &&& encode_utf8(out) == encode_utf8(full).take(cut)
}

/// A text member of the arguments, or something else where there is none.
pub open spec fn text_or(args: JsonView, key: Seq<char>, other: Seq<char>) -> Seq<char> {
    match args.member_text(key) {
        Some(s) => s,
        None => other,
    }
}

/// A number member of the arguments, or something else where there is none.
pub open spec fn number_or(args: JsonView, key: Seq<char>, other: u64) -> u64 {
    match args.member_unsigned(key) {
        Some(n) => n,
        None => other,
    }
}

/// What a device reports.
pub open spec fn status_text(device_id: Seq<char>) -> Seq<char> {
    "{\"battery\":87,\"cpu_load\":0.42,\"device_id\":"@ + json::json_quoted(device_id)
        + ",\"mem_free_mb\":1024,\"network\":\"wifi\"}"@
}

impl<X> BuiltinTool<X> {
    /// Whether a text is what the tool answers to the given arguments. A tool of
    /// another kind is not described here.
    pub open spec fn answers(self, args: JsonView, out: Seq<char>) -> bool {
        match self {
            BuiltinTool::Echo => out == text_or(args, "msg"@, ""@),
            BuiltinTool::KbSearch => out == PassageView::Found(text_or(args, "query"@, ""@)).lines(
                number_or(args, "top_k"@, 5) as nat,
            ),
            BuiltinTool::KbDump => PassageView::Document(text_or(args, "doc_id"@, "0"@)).fills(
                DUMP_SIZE as nat,
                out,
            ),
            BuiltinTool::KbBlob => exists|full: Seq<char>, cut: int| #[trigger]
                is_blob(
                    number_or(args, "seed"@, 0),
                    blob_size(number_or(args, "size_kb"@, 64)),
                    full,
                    cut,
                    out,
                ),
            BuiltinTool::DeviceStatus => out == status_text(text_or(args, "device_id"@, "local"@)),
            BuiltinTool::Custom(_) => false,
        }
    }
}

impl<X: ToolHandler> ToolHandler for BuiltinTool<X> {
    fn handle(&self, args: &Value) -> (out: CallToolResult)
        ensures
            match *self {
                BuiltinTool::Custom(x) => call_ensures(X::handle, (&x, args), out),
                _ => exists|t: Seq<char>|
                    out.is_text(t) && #[trigger] self.answers(json::json_of(*args), t),
            },
    {
        match self {
            BuiltinTool::Echo => {
                let msg: &str = match json::member_str(args, "msg") {
                    Some(s) => s,
                    None => "",
                };
                let out: String = String::from_str(msg);
                assert(self.answers(json::json_of(*args), out@));
                CallToolResult::text(out)
            },
            BuiltinTool::KbSearch => {
                let query: &str = match json::member_str(args, "query") {
                    Some(s) => s,
                    None => "",
                };
                let top_k: u64 = match json::member_u64(args, "top_k") {
                    Some(n) => n,
                    None => 5,
                };
                let out: String = Passage::Found(query).take_lines(top_k);
                assert(self.answers(json::json_of(*args), out@));
                CallToolResult::text(out)
            },
            BuiltinTool::KbDump => {
                let doc_id: &str = match json::member_str(args, "doc_id") {
                    Some(s) => s,
                    None => "0",
                };
                let out: String = Passage::Document(doc_id).fill(DUMP_SIZE);
                assert(self.answers(json::json_of(*args), out@));
                CallToolResult::text(out)
            },
            BuiltinTool::KbBlob => {
                let size_kb: u64 = match json::member_u64(args, "size_kb") {
                    Some(n) => n,
                    None => 64,
                };
                let seed: u64 = match json::member_u64(args, "seed") {
                    Some(n) => n,
                    None => 0,
                };
                let kb: u64 = if size_kb < 1 {
                    1
                } else if size_kb > MAX_BLOB_KB {
                    MAX_BLOB_KB
                } else {
                    size_kb
                };
                let size: usize = kb as usize * 1024;
                let full: String = Passage::Sample(seed).fill(size);
                let out: String = cut_text(full.as_str(), size);
                proof {
                    let want = blob_size(size_kb);
                    assert(size as nat == want);
                    assert(number_or(json::json_of(*args), "seed"@, 0) == seed);
                    assert(number_or(json::json_of(*args), "size_kb"@, 64) == size_kb);
                    let cut = choose|cut: int| #[trigger]
                        is_cut(encode_utf8(full@), size as int, cut) && encode_utf8(out@)
                            == encode_utf8(full@).take(cut);
                    assert(is_blob(seed, want, full@, cut, out@));
                }
                assert(self.answers(json::json_of(*args), out@));
                CallToolResult::text(out)
            },
            BuiltinTool::DeviceStatus => {
                let id: &str = match json::member_str(args, "device_id") {
                    Some(s) => s,
                    None => "local",
                };
                let mut out: String = String::from_str(
                    "{\"battery\":87,\"cpu_load\":0.42,\"device_id\":",
                );
                out.append(json::json_quote(id).as_str());
                out.append(",\"mem_free_mb\":1024,\"network\":\"wifi\"}");
                assert(self.answers(json::json_of(*args), out@));
                CallToolResult::text(out)
            },
            BuiltinTool::Custom(x) => x.handle(args),
        }
    }
}

/// The built-in prompts.
pub enum BuiltinPrompt {
    /// Asks for a summary of a text.
    Summarize,
}

/// Whether a filled-in prompt asks for a summary of a text.
pub open spec fn asks_for_summary(r: GetPromptResult, of: Seq<char>) -> bool {
    &&& r.description matches Some(d) && d@ == "摘要指令"@
    &&& r.messages@.len() == 1
    &&& r.messages@[0].role@ == "user"@
    &&& r.messages@[0].content.is_text("请用三句话以内总结以下内容：\n"@ + of)
}

impl PromptHandler for BuiltinPrompt {
    fn render(&self, args: &Value) -> (out: GetPromptResult)
        ensures
            asks_for_summary(out, text_or(json::json_of(*args), "text"@, ""@)),
    {
        let of: &str = match json::member_str(args, "text") {
            Some(s) => s,
            None => "",
        };
        let mut messages: Vec<PromptMessage> = Vec::new();
        messages.push(
            PromptMessage {
                role: String::from_str("user"),
                content: ContentBlock::Text {
                    text: text::joined("请用三句话以内总结以下内容：\n", of),
                },
            },
        );
        GetPromptResult { description: Some(String::from_str("摘要指令")), messages }
    }
}

/// The schema of arguments with the given members.
pub open spec fn schema(properties: JsonView) -> JsonView {
    JsonView::empty_object().with("type"@, JsonView::Str("object"@)).with(
        "properties"@,
        properties,
    )
}

/// The schema of a member of the given type.
pub open spec fn property(kind: Seq<char>) -> JsonView {
    JsonView::empty_object().with("type"@, JsonView::Str(kind))
}

fn add_property(properties: &mut Value, name: &str, kind: &str)
    requires
        json::json_of(*old(properties)) is Object,
    ensures
        json::json_of(*final(properties)) == json::json_of(*old(properties)).with(
            name@,
            property(kind@),
        ),
        json::json_of(*final(properties)) is Object,
{
    let mut p: Value = json::json_object();
    json::json_set(&mut p, "type", json::json_str(kind));
    json::json_set(properties, name, p);
}

fn make_schema(properties: Value) -> (out: Value)
    ensures
        json::json_of(out) == schema(json::json_of(properties)),
{
    let mut out: Value = json::json_object();
    json::json_set(&mut out, "type", json::json_str("object"));
    json::json_set(&mut out, "properties", properties);
    out
}

/// The arguments of the built-in tools.
pub open spec fn echo_schema() -> JsonView {
    schema(JsonView::empty_object().with("msg"@, property("string"@)))
}

pub open spec fn search_schema() -> JsonView {
    schema(
        JsonView::empty_object().with("query"@, property("string"@)).with(
            "top_k"@,
            property("integer"@),
        ),
    )
}

pub open spec fn dump_schema() -> JsonView {
    schema(JsonView::empty_object().with("doc_id"@, property("string"@)))
}

pub open spec fn blob_schema() -> JsonView {
    schema(
        JsonView::empty_object().with("size_kb"@, property("integer"@)).with(
            "seed"@,
            property("integer"@),
        ),
    )
}

pub open spec fn status_schema() -> JsonView {
    schema(JsonView::empty_object().with("device_id"@, property("string"@)))
}

pub open spec fn sum_schema() -> JsonView {
    schema(
        JsonView::empty_object().with(
            "values"@,
            property("array"@).with("items"@, property("number"@)),
        ),
    )
}

/// Whether a tool stands in a registry: number `i` of the list, with its handler
/// and whether its results may be cached.
pub open spec fn offers<X>(
    r: RegistryView<BuiltinTool<X>, BuiltinPrompt>,
    i: int,
    name: Seq<char>,
    description: Seq<char>,
    input_schema: JsonView,
    cacheable: bool,
    tool: BuiltinTool<X>,
) -> bool {
    &&& 0 <= i < r.tools.len()
    &&& r.tools[i].described(name, description, input_schema)
    &&& r.handlers.contains_key(name)
    &&& r.handlers[name] == tool
    &&& r.cacheable.contains_key(name)
    &&& r.cacheable[name] == cacheable
}

/// Whether the built-in tools stand in a registry, before all others. `sum` is
/// what adds up numbers.
pub open spec fn offers_builtin_tools<X>(
    r: RegistryView<BuiltinTool<X>, BuiltinPrompt>,
    sum: X,
) -> bool {
    &&& offers(r, 0, "echo"@, "回显输入消息"@, echo_schema(), false, BuiltinTool::Echo)
    &&& offers(
        r,
        1,
        "kb.search"@,
        "知识库检索，返回文档片段"@,
        search_schema(),
        true,
        BuiltinTool::KbSearch,
    )
    &&& offers(
        r,
        2,
        "kb.dump"@,
        "拉取整篇知识库文档"@,
        dump_schema(),
        true,
        BuiltinTool::KbDump,
    )
    &&& offers(
        r,
        3,
        "kb.blob"@,
        "生成指定大小的负载（size_kb 千字节）"@,
        blob_schema(),
        false,
        BuiltinTool::KbBlob,
    )
    &&& offers(
        r,
        4,
        "device.status"@,
        "查询设备资源状态"@,
        status_schema(),
        true,
        BuiltinTool::DeviceStatus,
    )
    &&& offers(
        r,
        5,
        "math.sum"@,
        "对数组求和"@,
        sum_schema(),
        false,
        BuiltinTool::Custom(sum),
    )
}

/// The names of the built-in tools.
pub open spec fn builtin_names() -> Set<Seq<char>> {
    set!["echo"@, "kb.search"@, "kb.dump"@, "kb.blob"@, "device.status"@, "math.sum"@]
}

/// Whether the built-in resources stand in a registry.
pub open spec fn offers_builtin_resources<H, P>(r: RegistryView<H, P>) -> bool {
    &&& r.resources.len() == 2
    &&& r.resources[0].described("ohmcp://docs/protocol"@, "协议说明"@, "text/markdown"@)
    &&& r.resources[1].described("ohmcp://device/profile"@, "设备画像"@, "application/json"@)
    &&& r.contents.dom() == set!["ohmcp://docs/protocol"@, "ohmcp://device/profile"@]
    &&& r.contents["ohmcp://docs/protocol"@].is_text(
        "ohmcp://docs/protocol"@,
        Some("text/markdown"@),
        "# ohmcp 协议\n二进制帧 + LZ4 压缩 + ChaCha20-Poly1305 加密的原生 MCP 传输。"@,
    )
    &&& r.contents["ohmcp://device/profile"@].is_text(
        "ohmcp://device/profile"@,
        Some("application/json"@),
        "{\"os\":\"OpenHarmony\",\"kernel\":\"linux\",\"arch\":\"aarch64\"}"@,
    )
}

/// Whether the built-in prompt stands in a registry.
pub open spec fn offers_builtin_prompt<H>(r: RegistryView<H, BuiltinPrompt>) -> bool {
    &&& r.prompts.len() == 1
    &&& r.prompts[0].name@ == "summarize"@
    &&& r.prompts[0].description matches Some(d) && d@ == "生成文本摘要指令"@
    &&& r.prompts[0].arguments@.len() == 1
    &&& r.prompts[0].arguments@[0].name@ == "text"@
    &&& r.prompts[0].arguments@[0].description matches Some(a) && a@ == "待摘要的原文"@
    &&& r.prompts[0].arguments@[0].required
    &&& r.prompt_handlers == map!["summarize"@ => BuiltinPrompt::Summarize]
}

/// A registered tool stays as it is when one of another name is registered.
proof fn lemma_tool_stays<X>(
    before: RegistryView<BuiltinTool<X>, BuiltinPrompt>,
    after: RegistryView<BuiltinTool<X>, BuiltinPrompt>,
    i: int,
    name: Seq<char>,
    description: Seq<char>,
    input_schema: JsonView,
    cacheable: bool,
    tool: BuiltinTool<X>,
    new_name: Seq<char>,
    new_cacheable: bool,
    new_tool: BuiltinTool<X>,
)
    requires
        offers(before, i, name, description, input_schema, cacheable, tool),
        after.tools.len() == before.tools.len() + 1,
        after.tools.drop_last() == before.tools,
        after.handlers == before.handlers.insert(new_name, new_tool),
        after.cacheable == before.cacheable.insert(new_name, new_cacheable),
        new_name != name,
    ensures
        offers(after, i, name, description, input_schema, cacheable, tool),
{
    assert(after.tools[i] == after.tools.drop_last()[i]);
}

/// The names of the built-in tools and the addresses of the built-in resources
/// are all different.
proof fn lemma_names_differ()
    ensures
        "echo"@ != "kb.search"@,
        "echo"@ != "kb.dump"@,
        "echo"@ != "kb.blob"@,
        "echo"@ != "device.status"@,
        "kb.search"@ != "kb.dump"@,
        "kb.search"@ != "kb.blob"@,
        "kb.search"@ != "device.status"@,
        "kb.dump"@ != "kb.blob"@,
        "kb.dump"@ != "device.status"@,
        "kb.blob"@ != "device.status"@,
        "echo"@ != "math.sum"@,
        "kb.search"@ != "math.sum"@,
        "kb.dump"@ != "math.sum"@,
        "kb.blob"@ != "math.sum"@,
        "device.status"@ != "math.sum"@,
        "ohmcp://docs/protocol"@ != "ohmcp://device/profile"@,
{
    reveal_strlit("echo");
    reveal_strlit("kb.search");
    reveal_strlit("kb.dump");
    reveal_strlit("kb.blob");
    reveal_strlit("device.status");
    reveal_strlit("math.sum");
    reveal_strlit("ohmcp://docs/protocol");
    reveal_strlit("ohmcp://device/profile");
    assert("echo"@.len() == 4 && "kb.search"@.len() == 9 && "kb.dump"@.len() == 7);
    assert("kb.blob"@.len() == 7 && "device.status"@.len() == 13 && "math.sum"@.len() == 8);
    assert("kb.dump"@[3] != "kb.blob"@[3]);
    assert("ohmcp://docs/protocol"@.len() != "ohmcp://device/profile"@.len());
}

/// Registers the built-in tools.
fn register_tools<X>(r: &mut ToolRegistry<BuiltinTool<X>, BuiltinPrompt>, sum: X)
    requires
        old(r)@ == RegistryView::<BuiltinTool<X>, BuiltinPrompt>::empty(),
    ensures
        final(r)@.tools.len() == 6,
        offers_builtin_tools(final(r)@, sum),
        final(r)@.handlers.dom() == builtin_names(),
        final(r)@.cacheable.dom() == builtin_names(),
        final(r)@ == (RegistryView {
            tools: final(r)@.tools,
            handlers: final(r)@.handlers,
            cacheable: final(r)@.cacheable,
            ..old(r)@
        }),
{
    proof {
        lemma_names_differ();
    }
    let mut p: Value = json::json_object();
    add_property(&mut p, "msg", "string");
    r.register("echo", "回显输入消息", make_schema(p), false, BuiltinTool::Echo);
    let ghost r1 = r@;

    let mut p: Value = json::json_object();
    add_property(&mut p, "query", "string");
    add_property(&mut p, "top_k", "integer");
    r.register(
        "kb.search",
        "知识库检索，返回文档片段",
        make_schema(p),
        true,
        BuiltinTool::KbSearch,
    );
    let ghost r2 = r@;

    let mut p: Value = json::json_object();
    add_property(&mut p, "doc_id", "string");
    r.register(
        "kb.dump",
        "拉取整篇知识库文档",
        make_schema(p),
        true,
        BuiltinTool::KbDump,
    );
    let ghost r3 = r@;

    let mut p: Value = json::json_object();
    add_property(&mut p, "size_kb", "integer");
    add_property(&mut p, "seed", "integer");
    r.register(
        "kb.blob",
        "生成指定大小的负载（size_kb 千字节）",
        make_schema(p),
        false,
        BuiltinTool::KbBlob,
    );
    let ghost r4 = r@;

    let mut p: Value = json::json_object();
    add_property(&mut p, "device_id", "string");
    r.register(
        "device.status",
        "查询设备资源状态",
        make_schema(p),
        true,
        BuiltinTool::DeviceStatus,
    );
    let ghost r5 = r@;

    let mut items: Value = json::json_object();
    json::json_set(&mut items, "type", json::json_str("number"));
    let mut values: Value = json::json_object();
    json::json_set(&mut values, "type", json::json_str("array"));
    json::json_set(&mut values, "items", items);
    let mut p: Value = json::json_object();
    json::json_set(&mut p, "values", values);
    r.register(
        "math.sum",
        "对数组求和",
        make_schema(p),
        false,
        BuiltinTool::Custom(sum),
    );
    proof {
        let r6 = r@;
        assert(r6.handlers.dom() =~= builtin_names());
        assert(r6.cacheable.dom() =~= builtin_names());
        let echo = ("echo"@, "回显输入消息"@, echo_schema());
        let search = ("kb.search"@, "知识库检索，返回文档片段"@, search_schema());
        let dump = ("kb.dump"@, "拉取整篇知识库文档"@, dump_schema());
        let blob = ("kb.blob"@, "生成指定大小的负载（size_kb 千字节）"@, blob_schema());
        let status = "device.status"@;
        let about_status = ("查询设备资源状态"@, status_schema());
        let last = ("math.sum"@, BuiltinTool::Custom(sum));
        assert(r1.tools[0] == r1.tools.last());
        assert(r2.tools[1] == r2.tools.last());
        assert(r3.tools[2] == r3.tools.last());
        assert(r4.tools[3] == r4.tools.last());
        assert(r5.tools[4] == r5.tools.last());
        assert(r6.tools[5] == r6.tools.last());
        lemma_tool_stays(r1, r2, 0, echo.0, echo.1, echo.2, false, BuiltinTool::Echo, search.0, true, BuiltinTool::KbSearch);
        lemma_tool_stays(r2, r3, 0, echo.0, echo.1, echo.2, false, BuiltinTool::Echo, dump.0, true, BuiltinTool::KbDump);
        lemma_tool_stays(r3, r4, 0, echo.0, echo.1, echo.2, false, BuiltinTool::Echo, blob.0, false, BuiltinTool::KbBlob);
        lemma_tool_stays(r4, r5, 0, echo.0, echo.1, echo.2, false, BuiltinTool::Echo, status, true, BuiltinTool::DeviceStatus);
        lemma_tool_stays(r2, r3, 1, search.0, search.1, search.2, true, BuiltinTool::KbSearch, dump.0, true, BuiltinTool::KbDump);
        lemma_tool_stays(r3, r4, 1, search.0, search.1, search.2, true, BuiltinTool::KbSearch, blob.0, false, BuiltinTool::KbBlob);
        lemma_tool_stays(r4, r5, 1, search.0, search.1, search.2, true, BuiltinTool::KbSearch, status, true, BuiltinTool::DeviceStatus);
        lemma_tool_stays(r3, r4, 2, dump.0, dump.1, dump.2, true, BuiltinTool::KbDump, blob.0, false, BuiltinTool::KbBlob);
        lemma_tool_stays(r4, r5, 2, dump.0, dump.1, dump.2, true, BuiltinTool::KbDump, status, true, BuiltinTool::DeviceStatus);
        lemma_tool_stays(r4, r5, 3, blob.0, blob.1, blob.2, false, BuiltinTool::KbBlob, status, true, BuiltinTool::DeviceStatus);
        lemma_tool_stays(r5, r6, 0, echo.0, echo.1, echo.2, false, BuiltinTool::Echo, last.0, false, last.1);
        lemma_tool_stays(r5, r6, 1, search.0, search.1, search.2, true, BuiltinTool::KbSearch, last.0, false, last.1);
        lemma_tool_stays(r5, r6, 2, dump.0, dump.1, dump.2, true, BuiltinTool::KbDump, last.0, false, last.1);
        lemma_tool_stays(r5, r6, 3, blob.0, blob.1, blob.2, false, BuiltinTool::KbBlob, last.0, false, last.1);
        lemma_tool_stays(r5, r6, 4, status, about_status.0, about_status.1, true, BuiltinTool::DeviceStatus, last.0, false, last.1);
    }
}

/// A registry with everything built in. `sum` is the handler of the tool that adds
/// up numbers; further tools of its kind can be added.
pub fn builtin_registry<X>(sum: X) -> (out: ToolRegistry<BuiltinTool<X>, BuiltinPrompt>)
    ensures
        out@.tools.len() == 6,
        offers_builtin_tools(out@, sum),
        out@.handlers.dom() == builtin_names(),
        out@.cacheable.dom() == builtin_names(),
        offers_builtin_resources(out@),
        offers_builtin_prompt(out@),
{
    let mut r: ToolRegistry<BuiltinTool<X>, BuiltinPrompt> = ToolRegistry::new();
    register_tools(&mut r, sum);
    let ghost r1 = r@;
    r.register_resource(
        "ohmcp://docs/protocol",
        "协议说明",
        "text/markdown",
        "# ohmcp 协议\n二进制帧 + LZ4 压缩 + ChaCha20-Poly1305 加密的原生 MCP 传输。",
    );
    let ghost r2 = r@;
    r.register_resource(
        "ohmcp://device/profile",
        "设备画像",
        "application/json",
        "{\"os\":\"OpenHarmony\",\"kernel\":\"linux\",\"arch\":\"aarch64\"}",
    );
    let ghost r3 = r@;
    let mut arguments: Vec<PromptArgument> = Vec::new();
    arguments.push(
        PromptArgument {
            name: String::from_str("text"),
            description: Some(String::from_str("待摘要的原文")),
            required: true,
        },
    );
    r.register_prompt(
        Prompt {
            name: String::from_str("summarize"),
            description: Some(String::from_str("生成文本摘要指令")),
            arguments,
        },
        BuiltinPrompt::Summarize,
    );
    proof {
        lemma_names_differ();
        assert(r2.resources[0] == r2.resources.last());
        assert(r3.resources[1] == r3.resources.last());
        assert(r3.resources[0] == r3.resources.drop_last()[0]);
        assert(r@.contents.dom() =~= set!["ohmcp://docs/protocol"@, "ohmcp://device/profile"@]);
        assert(r@.prompt_handlers =~= map!["summarize"@ => BuiltinPrompt::Summarize]);
    }
    r
}

/// As many passages as it takes is one text: nothing else fills the size.
pub proof fn filled_text_is_determined(p: PassageView, size: nat, a: Seq<char>, b: Seq<char>)
    requires
        p.fills(size, a),
        p.fills(size, b),
    ensures
        a == b,
{
    let m = choose|n: nat|
        a == #[trigger] p.lines(n) && byte_len(a) >= size && (n > 0 ==> byte_len(
            p.lines((n - 1) as nat),
        ) < size);
    let n = choose|n: nat|
        b == #[trigger] p.lines(n) && byte_len(b) >= size && (n > 0 ==> byte_len(
            p.lines((n - 1) as nat),
        ) < size);
    if m < n {
        lemma_lines_grow(p, m, (n - 1) as nat);
    } else if n < m {
        lemma_lines_grow(p, n, (m - 1) as nat);
    }
}

/// A tool of the server gives the same text whenever it is called with the same
/// arguments, so that nothing is lost where a kept result stands for another run.
pub proof fn tools_repeat_themselves<X>(
    tool: BuiltinTool<X>,
    args: JsonView,
    a: Seq<char>,
    b: Seq<char>,
)
    requires
        tool.answers(args, a),
        tool.answers(args, b),
    ensures
        a == b,
{
    match tool {
        BuiltinTool::KbDump => {
            let p = PassageView::Document(text_or(args, "doc_id"@, "0"@));
            filled_text_is_determined(p, DUMP_SIZE as nat, a, b);
        },
        BuiltinTool::KbBlob => {
            let seed = number_or(args, "seed"@, 0);
            let size = blob_size(number_or(args, "size_kb"@, 64));
            let (full, cut) = choose|full: Seq<char>, cut: int| #[trigger]
                is_blob(seed, size, full, cut, a);
            let (other, place) = choose|full: Seq<char>, cut: int| #[trigger]
                is_blob(seed, size, full, cut, b);
            filled_text_is_determined(PassageView::Sample(seed), size, full, other);
            assert(cut == place);
            encode_utf8_decode_utf8(a);
            encode_utf8_decode_utf8(b);
        },
        _ => {},
    }
}

proof fn lemma_lines_grow(p: PassageView, m: nat, n: nat)
    requires
        m <= n,
    ensures
        byte_len(p.lines(m)) <= byte_len(p.lines(n)),
    decreases n,
{
    if m < n {
        lemma_lines_grow(p, m, (n - 1) as nat);
        text::lemma_encode_joined(p.lines((n - 1) as nat), p.line((n - 1) as nat));
    }
}

/// At or behind every place of a text, fewer than four bytes on, it may be cut.
proof fn lemma_cut_is_near(s: Seq<u8>, i: int) -> (j: int)
    requires
        valid_utf8(s),
        0 <= i <= s.len(),
    ensures
        i <= j < i + 4,
        j <= s.len(),
        is_char_boundary(s, j),
    decreases s.len(),
{
    if i == 0 {
        0
    } else {
        let first = length_of_first_scalar(s);
        let rest = pop_first_scalar(s);
        if i <= first {
            reveal_with_fuel(is_char_boundary, 2);
            first
        } else {
            lemma_cut_is_near(rest, i - first) + first
        }
    }
}

/// The passages begin with the first of them.
proof fn lemma_lines_begin(p: PassageView, n: nat)
    requires
        n > 0,
    ensures
        p.line(0).is_prefix_of(p.lines(n)),
    decreases n,
{
    if n == 1 {
        assert(p.lines(0) + p.line(0) =~= p.line(0));
    } else {
        lemma_lines_begin(p, (n - 1) as nat);
    }
}

/// A text has at most four times as many bytes as characters.
proof fn lemma_four_bytes_at_most(s: Seq<char>)
    ensures
        byte_len(s) <= 4 * s.len(),
    decreases s.len(),
{
    if s.len() > 0 {
        lemma_four_bytes_at_most(s.drop_first());
    }
}

/// The beginning of a text of a given size.
pub open spec fn blob_head(seed: u64) -> Seq<char> {
    "[blob#"@ + text::decimal(seed as nat) + ":0]"@
}

/// A text of a given size is the beginning of its passages, and begins with its
/// seed.
pub proof fn blob_begins_with_its_seed(
    seed: u64,
    size: nat,
    full: Seq<char>,
    cut: int,
    out: Seq<char>,
)
    requires
        is_blob(seed, size, full, cut, out),
        size >= 1024,
    ensures
        out.is_prefix_of(full),
        blob_head(seed).is_prefix_of(out),
{
    let p = PassageView::Sample(seed);
    let bytes = encode_utf8(full);
    encode_utf8_valid_utf8(full);
    encode_utf8_decode_utf8(full);
    encode_utf8_decode_utf8(out);
    decode_utf8_split(bytes, cut);
    assert(bytes.subrange(0, cut) =~= bytes.take(cut));
    assert(out.is_prefix_of(full));
    let n = choose|n: nat|
        full == #[trigger] p.lines(n) && byte_len(full) >= size && (n > 0 ==> byte_len(
            p.lines((n - 1) as nat),
        ) < size);
    assert(byte_len(p.lines(0)) == 0);
    lemma_lines_begin(p, n);
    blob_meets_its_size(seed, size, full, cut, out);
    lemma_four_bytes_at_most(out);
    text::lemma_decimal_is_short(seed);
    reveal_strlit("[blob#");
    reveal_strlit(":0]");
    reveal_strlit(":");
    reveal_strlit(
        "] OpenHarmony 泛在 OS 原生 MCP 大 payload 传输样本段落，含接口定义、参数说明与示例代码，用于衡量共享内存通道随负载扩展性。\n",
    );
    assert(text::decimal(0) =~= seq!['0']);
    let line = p.line(0);
    assert(blob_head(seed).len() <= 29);
    assert(blob_head(seed) =~= line.take(blob_head(seed).len() as int));
    assert(blob_head(seed) =~= out.take(blob_head(seed).len() as int));
}

/// A document begins with its name.
pub proof fn document_begins_with_its_name(doc_id: Seq<char>, size: nat, out: Seq<char>)
    requires
        PassageView::Document(doc_id).fills(size, out),
        size > 0,
    ensures
        ("["@ + doc_id + "#0]"@).is_prefix_of(out),
{
    let p = PassageView::Document(doc_id);
    let n = choose|n: nat|
        out == #[trigger] p.lines(n) && byte_len(out) >= size && (n > 0 ==> byte_len(
            p.lines((n - 1) as nat),
        ) < size);
    assert(byte_len(p.lines(0)) == 0);
    lemma_lines_begin(p, n);
    reveal_strlit("[");
    reveal_strlit("#0]");
    reveal_strlit("#");
    reveal_strlit(
        "] OpenHarmony 分布式软总线提供设备发现、连接、组网与传输能力，应用无需关心底层通信细节即可实现跨设备调用。本段为文档正文第 ",
    );
    assert(text::decimal(0) =~= seq!['0']);
    let head = "["@ + doc_id + "#0]"@;
    assert(head =~= p.line(0).take(head.len() as int));
    assert(head =~= out.take(head.len() as int));
}

/// A text of a given size has that size, or as few bytes more as its last
/// character takes.
pub proof fn blob_meets_its_size(seed: u64, size: nat, full: Seq<char>, cut: int, out: Seq<char>)
    requires
        is_blob(seed, size, full, cut, out),
    ensures
        size <= byte_len(out) < size + 4,
{
    encode_utf8_valid_utf8(full);
    let near = lemma_cut_is_near(encode_utf8(full), size as int);
    if cut > near {
        assert(!is_char_boundary(encode_utf8(full), near));
    }
}

/// The first passages are the passages from number zero on, joined in their order.
proof fn lemma_lines_are_joined(p: PassageView, n: nat)
    ensures
        p.lines(n) == Seq::new(n, |i: int| p.line(i as nat)).flatten(),
    decreases n,
{
    let all = Seq::new(n, |i: int| p.line(i as nat));
    if n == 0 {
        assert(all =~= Seq::<Seq<char>>::empty());
        assert(all.flatten() =~= Seq::<char>::empty());
    } else {
        let before = Seq::new((n - 1) as nat, |i: int| p.line(i as nat));
        lemma_lines_are_joined(p, (n - 1) as nat);
        assert(all =~= before.push(p.line((n - 1) as nat)));
        before.lemma_flatten_push(p.line((n - 1) as nat));
    }
}

/// A search gives as many passages as it is asked for, however many that is: the
/// passages numbered from zero on, each with its number and the query. Where the
/// arguments hold no whole number as `top_k` it gives five; where they hold no text as
/// `query` it searches for nothing.
pub proof fn search_gives_the_passages_that_were_asked_for<X: ToolHandler>(
    tool: BuiltinTool<X>,
    args: Value,
    out: CallToolResult,
    query: Seq<char>,
    n: u64,
)
    requires
        tool is KbSearch,
        call_ensures(<BuiltinTool<X> as ToolHandler>::handle, (&tool, &args), out),
        query == match json::json_of(args).member("query"@) {
            Some(JsonView::Str(s)) => s,
            _ => ""@,
        },
        n == match json::json_of(args).member("top_k"@) {
            Some(JsonView::Number(json::JsonNumber::Unsigned(k))) => k,
            _ => 5,
        },
    ensures
        !out.is_error,
        out.content@.len() == 1,
        out.content@[0] matches ContentBlock::Text { text: t } && t@ == Seq::new(
            n as nat,
            |i: int|
                "[doc-"@ + text::decimal(i as nat) + "] 关于「"@ + query
                    + "」的检索结果：OpenHarmony 是面向万物智联时代的开源操作系统，支持分布式软总线、跨设备协同与统一生态。本片段为知识库中与查询相关的文档内容，段落编号 "@
                    + text::decimal(i as nat) + "，包含背景介绍、接口说明与示例代码。\n"@,
        ).flatten(),
{
    let p = PassageView::Found(query);
    lemma_lines_are_joined(p, n as nat);
    assert(Seq::new(n as nat, |i: int| p.line(i as nat)) =~= Seq::new(
        n as nat,
        |i: int|
            "[doc-"@ + text::decimal(i as nat) + "] 关于「"@ + query
                    + "」的检索结果：OpenHarmony 是面向万物智联时代的开源操作系统，支持分布式软总线、跨设备协同与统一生态。本片段为知识库中与查询相关的文档内容，段落编号 "@
                    + text::decimal(i as nat) + "，包含背景介绍、接口说明与示例代码。\n"@,
    ));
}

/// A fetched document is passages of the document that was asked for, numbered from zero
/// on: as many as it takes for 65536 bytes, and not one more. Without a name it is
/// document 0.
pub proof fn documents_are_as_long_as_they_should_be<X: ToolHandler>(
    tool: BuiltinTool<X>,
    args: Value,
    out: CallToolResult,
    doc_id: Seq<char>,
)
    requires
        tool is KbDump,
        call_ensures(<BuiltinTool<X> as ToolHandler>::handle, (&tool, &args), out),
        doc_id == match json::json_of(args).member("doc_id"@) {
            Some(JsonView::Str(s)) => s,
            _ => "0"@,
        },
    ensures
        !out.is_error,
        out.content@.len() == 1,
        out.content@[0] matches ContentBlock::Text { text: t } && exists|pieces: Seq<Seq<char>>|
            {
                &&& t@ == #[trigger] pieces.flatten()
                &&& pieces == Seq::new(
                    pieces.len(),
                    |i: int|
                        "["@ + doc_id + "#"@ + text::decimal(i as nat)
                    + "] OpenHarmony 分布式软总线提供设备发现、连接、组网与传输能力，应用无需关心底层通信细节即可实现跨设备调用。本段为文档正文第 "@
                    + text::decimal(i as nat)
                    + " 段，含接口定义、参数说明、错误码表与示例代码片段。\n"@,
                )
                &&& pieces.len() > 0
                &&& encode_utf8(t@).len() >= 65_536
                &&& encode_utf8(pieces.drop_last().flatten()).len() < 65_536
            },
{
    let p = PassageView::Document(doc_id);
    let t = out.content@[0]->Text_text@;
    let n = choose|n: nat|
        t == #[trigger] p.lines(n) && byte_len(t) >= DUMP_SIZE && (n > 0 ==> byte_len(
            p.lines((n - 1) as nat),
        ) < DUMP_SIZE);
    assert(byte_len(p.lines(0)) == 0);
    let pieces = Seq::new(
        n,
        |i: int|
            "["@ + doc_id + "#"@ + text::decimal(i as nat)
                    + "] OpenHarmony 分布式软总线提供设备发现、连接、组网与传输能力，应用无需关心底层通信细节即可实现跨设备调用。本段为文档正文第 "@
                    + text::decimal(i as nat)
                    + " 段，含接口定义、参数说明、错误码表与示例代码片段。\n"@,
    );
    assert(pieces =~= Seq::new(n, |i: int| p.line(i as nat)));
    assert(pieces.drop_last() =~= Seq::new((n - 1) as nat, |i: int| p.line(i as nat)));
    lemma_lines_are_joined(p, n);
    lemma_lines_are_joined(p, (n - 1) as nat);
    assert(t == pieces.flatten());
    assert(pieces =~= Seq::new(
        pieces.len(),
        |i: int|
            "["@ + doc_id + "#"@ + text::decimal(i as nat)
                    + "] OpenHarmony 分布式软总线提供设备发现、连接、组网与传输能力，应用无需关心底层通信细节即可实现跨设备调用。本段为文档正文第 "@
                    + text::decimal(i as nat)
                    + " 段，含接口定义、参数说明、错误码表与示例代码片段。\n"@,
    ));
}

/// A text may be cut behind each of its characters.
proof fn lemma_prefix_ends_at_boundary(full: Seq<char>, k: int)
    requires
        0 <= k <= full.len(),
    ensures
        is_char_boundary(encode_utf8(full), encode_utf8(full.take(k)).len() as int),
        encode_utf8(full.take(k)).len() <= encode_utf8(full).len(),
    decreases full.len(),
{
    encode_utf8_valid_utf8(full);
    if k == 0 {
        assert(full.take(0) =~= Seq::<char>::empty());
    } else {
        let rest = full.drop_first();
        encode_utf8_first_scalar(full);
        encode_utf8_valid_utf8(rest);
        lemma_prefix_ends_at_boundary(rest, k - 1);
        assert(full.take(k).drop_first() =~= rest.take(k - 1));
        assert(full.take(k)[0] == full[0]);
        assert(encode_utf8(full) =~= encode_scalar(full[0] as u32) + encode_utf8(rest));
        assert(pop_first_scalar(encode_utf8(full)) =~= encode_utf8(rest));
    }
}

/// A text of a given size is the beginning of the passages of its seed, numbered from
/// zero on. It has as many bytes as were asked for, in KiB from 1 to 4096, or as few more
/// as its last character takes: without that character it would be too short. Without a
/// size it has 64 KiB, and without a seed its seed is zero.
pub proof fn blobs_are_as_long_as_was_asked_for<X: ToolHandler>(
    tool: BuiltinTool<X>,
    args: Value,
    out: CallToolResult,
    seed: u64,
    kb: u64,
)
    requires
        tool is KbBlob,
        call_ensures(<BuiltinTool<X> as ToolHandler>::handle, (&tool, &args), out),
        seed == match json::json_of(args).member("seed"@) {
            Some(JsonView::Number(json::JsonNumber::Unsigned(k))) => k,
            _ => 0,
        },
        kb == match json::json_of(args).member("size_kb"@) {
            Some(JsonView::Number(json::JsonNumber::Unsigned(k))) => k,
            _ => 64,
        },
    ensures
        !out.is_error,
        out.content@.len() == 1,
        out.content@[0] matches ContentBlock::Text { text: t } && t@.len() > 0 && ({
            let size: int = if kb < 1 {
                1024
            } else if kb > 4096 {
                4_194_304
            } else {
                kb * 1024
            };
            &&& size <= encode_utf8(t@).len()
            &&& encode_utf8(t@.drop_last()).len() < size
        }) && exists|pieces: Seq<Seq<char>>|
            {
                &&& t@.is_prefix_of(#[trigger] pieces.flatten())
                &&& pieces == Seq::new(
                    pieces.len(),
                    |i: int|
                        "[blob#"@ + text::decimal(seed as nat) + ":"@ + text::decimal(i as nat)
                    + "] OpenHarmony 泛在 OS 原生 MCP 大 payload 传输样本段落，含接口定义、参数说明与示例代码，用于衡量共享内存通道随负载扩展性。\n"@,
                )
            },
{
    let p = PassageView::Sample(seed);
    let t = out.content@[0]->Text_text@;
    let size = blob_size(kb);
    let (full, cut) = choose|full: Seq<char>, cut: int| #[trigger]
        is_blob(seed, size, full, cut, t);
    assert(is_blob(seed, size, full, cut, t));
    blob_begins_with_its_seed(seed, size, full, cut, t);
    blob_meets_its_size(seed, size, full, cut, t);
    assert(encode_utf8(Seq::<char>::empty()).len() == 0);
    assert(t.len() > 0) by {
        if t.len() == 0 {
            assert(t =~= Seq::<char>::empty());
        }
    }
    let k = t.len() - 1;
    assert(t.drop_last() =~= full.take(k));
    assert(t =~= full.take(t.len() as int));
    lemma_prefix_ends_at_boundary(full, k);
    let b = encode_utf8(full.take(k)).len();
    let last = seq![t.last()];
    assert(t =~= t.drop_last() + last);
    text::lemma_encode_joined(t.drop_last(), last);
    lemma_bytes_of_text(last);
    assert(encode_utf8(t).len() == cut);
    assert(b < cut);
    if b >= size {
        assert(!is_char_boundary(encode_utf8(full), b as int));
    }
    let n = choose|n: nat|
        full == #[trigger] p.lines(n) && byte_len(full) >= size && (n > 0 ==> byte_len(
            p.lines((n - 1) as nat),
        ) < size);
    lemma_lines_are_joined(p, n);
    let pieces = Seq::new(
        n,
        |i: int|
            "[blob#"@ + text::decimal(seed as nat) + ":"@ + text::decimal(i as nat)
                    + "] OpenHarmony 泛在 OS 原生 MCP 大 payload 传输样本段落，含接口定义、参数说明与示例代码，用于衡量共享内存通道随负载扩展性。\n"@,
    );
    assert(pieces =~= Seq::new(n, |i: int| p.line(i as nat)));
    assert(t.is_prefix_of(pieces.flatten()));
    assert(pieces =~= Seq::new(
        pieces.len(),
        |i: int|
            "[blob#"@ + text::decimal(seed as nat) + ":"@ + text::decimal(i as nat)
                    + "] OpenHarmony 泛在 OS 原生 MCP 大 payload 传输样本段落，含接口定义、参数说明与示例代码，用于衡量共享内存通道随负载扩展性。\n"@,
    ));
}

/// The echo gives the whole message back, the report of a device names the device that
/// was asked for, and a tool of another kind does what that kind does.
pub proof fn other_tools_answer_what_they_are_asked<X: ToolHandler>(
    tool: BuiltinTool<X>,
    args: Value,
    out: CallToolResult,
)
    requires
        call_ensures(<BuiltinTool<X> as ToolHandler>::handle, (&tool, &args), out),
    ensures
        tool is Echo ==> !out.is_error && out.content@.len() == 1 && (
        out.content@[0] matches ContentBlock::Text { text: t } && t@ == match json::json_of(
            args,
        ).member("msg"@) {
            Some(JsonView::Str(s)) => s,
            _ => ""@,
        }),
        tool is DeviceStatus ==> !out.is_error && out.content@.len() == 1 && (
        out.content@[0] matches ContentBlock::Text { text: t } && t@
            == "{\"battery\":87,\"cpu_load\":0.42,\"device_id\":"@ + json::json_quoted(
            match json::json_of(args).member("device_id"@) {
                Some(JsonView::Str(s)) => s,
                _ => "local"@,
            },
        ) + ",\"mem_free_mb\":1024,\"network\":\"wifi\"}"@),
        tool matches BuiltinTool::Custom(x) ==> call_ensures(X::handle, (&x, &args), out),
{
}

/// The prompt for a summary is one message of the user: the instruction, and behind it
/// the whole text, however long it is. Without a text it is the instruction alone.
pub proof fn prompts_hold_the_whole_text(
    prompt: BuiltinPrompt,
    args: Value,
    out: GetPromptResult,
    of: Seq<char>,
)
    requires
        call_ensures(<BuiltinPrompt as PromptHandler>::render, (&prompt, &args), out),
        of == match json::json_of(args).member("text"@) {
            Some(JsonView::Str(s)) => s,
            _ => ""@,
        },
    ensures
        out.description matches Some(d) && d@ == "摘要指令"@,
        out.messages@.len() == 1,
        out.messages@[0].role@ == "user"@,
        out.messages@[0].content matches ContentBlock::Text { text: t } && {
            let instruction = "请用三句话以内总结以下内容：\n"@;
            &&& t@.len() == instruction.len() + of.len()
            &&& t@.take(instruction.len() as int) == instruction
            &&& t@.skip(instruction.len() as int) == of
        },
{
    let instruction = "请用三句话以内总结以下内容：\n"@;
    let t = out.messages@[0].content->Text_text@;
    assert(t == instruction + of);
    assert(t.take(instruction.len() as int) =~= instruction);
    assert(t.skip(instruction.len() as int) =~= of);
}

/// What is built in: six tools under their names, of which those that only look
/// something up may be cached and those that echo, make or add up may not; two
/// resources that can be read as they are; and the prompt.
pub proof fn everything_is_built_in<X>(
    sum: X,
    out: ToolRegistry<BuiltinTool<X>, BuiltinPrompt>,
    name: Seq<char>,
)
    requires
        call_ensures(builtin_registry::<X>, (sum,), out),
    ensures
        out@.tools.len() == 6,
        out@.tools[0].name@ == "echo"@ && out@.handlers["echo"@] is Echo && !out@.caches("echo"@),
        out@.tools[1].name@ == "kb.search"@ && out@.handlers["kb.search"@] is KbSearch
            && out@.caches("kb.search"@),
        out@.tools[2].name@ == "kb.dump"@ && out@.handlers["kb.dump"@] is KbDump && out@.caches(
            "kb.dump"@,
        ),
        out@.tools[3].name@ == "kb.blob"@ && out@.handlers["kb.blob"@] is KbBlob && !out@.caches(
            "kb.blob"@,
        ),
        out@.tools[4].name@ == "device.status"@ && out@.handlers["device.status"@] is DeviceStatus
            && out@.caches("device.status"@),
        out@.tools[5].name@ == "math.sum"@ && out@.handlers["math.sum"@] == BuiltinTool::Custom(sum)
            && !out@.caches("math.sum"@),
        out@.handlers.contains_key(name) <==> name == "echo"@ || name == "kb.search"@ || name
            == "kb.dump"@ || name == "kb.blob"@ || name == "device.status"@ || name == "math.sum"@,
        out@.resources.len() == 2,
        out@.resources[0].uri@ == "ohmcp://docs/protocol"@,
        out@.resources[1].uri@ == "ohmcp://device/profile"@,
        out@.contents.contains_key(name) <==> name == "ohmcp://docs/protocol"@ || name
            == "ohmcp://device/profile"@,
        out@.contents["ohmcp://docs/protocol"@].text matches Some(t) && t@
            == "# ohmcp 协议\n二进制帧 + LZ4 压缩 + ChaCha20-Poly1305 加密的原生 MCP 传输。"@,
        out@.contents["ohmcp://device/profile"@].text matches Some(t) && t@
            == "{\"os\":\"OpenHarmony\",\"kernel\":\"linux\",\"arch\":\"aarch64\"}"@,
        out@.prompts.len() == 1,
        out@.prompts[0].name@ == "summarize"@,
        out@.prompts[0].arguments@.len() == 1,
        out@.prompts[0].arguments@[0].name@ == "text"@,
        out@.prompts[0].arguments@[0].required,
        out@.prompt_handlers.contains_key(name) <==> name == "summarize"@,
{
    lemma_names_differ();
}

/// The arguments that the tools are listed with: an object whose members are the given
/// ones, each of its type.
pub proof fn tools_are_listed_with_their_arguments<X>(
    sum: X,
    out: ToolRegistry<BuiltinTool<X>, BuiltinPrompt>,
    i: int,
)
    requires
        call_ensures(builtin_registry::<X>, (sum,), out),
        0 <= i < 6,
    ensures
        ({
            let listed = json::json_of(out@.tools[i].input_schema);
            let members = listed.member("properties"@);
            let kind = |name: Seq<char>|
                match members {
                    Some(m) => match m.member(name) {
                        Some(p) => p.member("type"@),
                        None => None,
                    },
                    None => None,
                };
            let text = Some(JsonView::Str("string"@));
            let number = Some(JsonView::Str("integer"@));
            &&& listed.member("type"@) == Some(JsonView::Str("object"@))
            &&& i == 0 ==> kind("msg"@) == text
            &&& i == 1 ==> kind("query"@) == text && kind("top_k"@) == number
            &&& i == 2 ==> kind("doc_id"@) == text
            &&& i == 3 ==> kind("size_kb"@) == number && kind("seed"@) == number
            &&& i == 4 ==> kind("device_id"@) == text
            &&& i == 5 ==> kind("values"@) == Some(JsonView::Str("array"@))
        }),
{
    reveal_strlit("type");
    reveal_strlit("properties");
    reveal_strlit("query");
    reveal_strlit("top_k");
    reveal_strlit("size_kb");
    reveal_strlit("seed");
    reveal_strlit("items");
    assert("type"@.len() == 4 && "properties"@.len() == 10 && "items"@.len() == 5);
    assert("query"@.len() == 5 && "query"@[0] == 'q' && "top_k"@[0] == 't');
    assert("size_kb"@.len() == 7 && "seed"@.len() == 4);
}

} // verus!
