use vstd::prelude::*;
use crate::http::{decimal, decimal_chars};
use crate::text::{contains_seq, lowercase_of, push_chars, push_str, str_contains, string_of, to_lowercase, trim, trimmed};
use crate::tunnel::{tr, Language};

verus! {

/// A tool the engine offers over MCP: its name and what it does, in each language.
#[derive(Clone, Copy)]
pub struct ToolEntry {
    pub name: &'static str,
    pub desc_pt: &'static str,
    pub desc_en: &'static str,
}

/// A category of tools: its name in each language, its colour (red, green,
/// blue) and its tools.
pub struct ToolCategory {
    pub name_pt: &'static str,
    pub name_en: &'static str,
    pub rgb: (u8, u8, u8),
    pub tools: Vec<ToolEntry>,
}

pub struct ToolCategoryV {
    pub name_pt: &'static str,
    pub name_en: &'static str,
    pub rgb: (u8, u8, u8),
    pub tools: Seq<ToolEntry>,
}

impl View for ToolCategory {
    type V = ToolCategoryV;

    open spec fn view(&self) -> ToolCategoryV {
        ToolCategoryV { name_pt: self.name_pt, name_en: self.name_en, rgb: self.rgb, tools: self.tools@ }
    }
}

/// The category "Vision & Screenshot".
pub open spec fn vision_spec() -> ToolCategoryV {
    ToolCategoryV {
        name_pt: "Visão & Screenshot",
        name_en: "Vision & Screenshot",
        rgb: (33u8, 150u8, 243u8),
        tools: seq![
            ToolEntry { name: "screenshot", desc_pt: "Captura imagem base64 da tela", desc_en: "Capture base64 screen image" },
            ToolEntry { name: "get_screen_size", desc_pt: "Resolução e DPI da tela", desc_en: "Screen resolution and DPI" },
            ToolEntry { name: "get_cursor_position", desc_pt: "Posição atual do cursor", desc_en: "Current cursor position" },
            ToolEntry { name: "get_desktop_state", desc_pt: "Estado completo do desktop + janelas", desc_en: "Full desktop state + windows" },
        ],
    }
}

fn vision_category() -> (r: ToolCategory)
    ensures
        r@ == vision_spec(),
{
    let mut tools: Vec<ToolEntry> = Vec::new();
    tools.push(ToolEntry { name: "screenshot", desc_pt: "Captura imagem base64 da tela", desc_en: "Capture base64 screen image" });
    tools.push(ToolEntry { name: "get_screen_size", desc_pt: "Resolução e DPI da tela", desc_en: "Screen resolution and DPI" });
    tools.push(ToolEntry { name: "get_cursor_position", desc_pt: "Posição atual do cursor", desc_en: "Current cursor position" });
    tools.push(ToolEntry { name: "get_desktop_state", desc_pt: "Estado completo do desktop + janelas", desc_en: "Full desktop state + windows" });
    let r = ToolCategory { name_pt: "Visão & Screenshot", name_en: "Vision & Screenshot", rgb: (33, 150, 243), tools };
    assert(r.tools@ =~= vision_spec().tools);
    r
}

/// The category "Mouse & Cursor".
pub open spec fn mouse_spec() -> ToolCategoryV {
    ToolCategoryV {
        name_pt: "Mouse & Cursor",
        name_en: "Mouse & Cursor",
        rgb: (76u8, 175u8, 80u8),
        tools: seq![
            ToolEntry { name: "click", desc_pt: "Clique esquerdo em (x, y)", desc_en: "Left click at (x, y)" },
            ToolEntry { name: "double_click", desc_pt: "Duplo clique em (x, y)", desc_en: "Double click at (x, y)" },
            ToolEntry { name: "right_click", desc_pt: "Clique direito em (x, y)", desc_en: "Right click at (x, y)" },
            ToolEntry { name: "drag", desc_pt: "Arrastar de (x1,y1) para (x2,y2)", desc_en: "Drag from (x1,y1) to (x2,y2)" },
            ToolEntry { name: "move_cursor", desc_pt: "Mover ponteiro para (x, y)", desc_en: "Move pointer to (x, y)" },
            ToolEntry { name: "scroll", desc_pt: "Rolar tela (up/down/left/right)", desc_en: "Scroll screen (up/down/left/right)" },
        ],
    }
}

fn mouse_category() -> (r: ToolCategory)
    ensures
        r@ == mouse_spec(),
{
    let mut tools: Vec<ToolEntry> = Vec::new();
    tools.push(ToolEntry { name: "click", desc_pt: "Clique esquerdo em (x, y)", desc_en: "Left click at (x, y)" });
    tools.push(ToolEntry { name: "double_click", desc_pt: "Duplo clique em (x, y)", desc_en: "Double click at (x, y)" });
    tools.push(ToolEntry { name: "right_click", desc_pt: "Clique direito em (x, y)", desc_en: "Right click at (x, y)" });
    tools.push(ToolEntry { name: "drag", desc_pt: "Arrastar de (x1,y1) para (x2,y2)", desc_en: "Drag from (x1,y1) to (x2,y2)" });
    tools.push(ToolEntry { name: "move_cursor", desc_pt: "Mover ponteiro para (x, y)", desc_en: "Move pointer to (x, y)" });
    tools.push(ToolEntry { name: "scroll", desc_pt: "Rolar tela (up/down/left/right)", desc_en: "Scroll screen (up/down/left/right)" });
    let r = ToolCategory { name_pt: "Mouse & Cursor", name_en: "Mouse & Cursor", rgb: (76, 175, 80), tools };
    assert(r.tools@ =~= mouse_spec().tools);
    r
}

/// The category "Keyboard & Typing".
pub open spec fn keyboard_spec() -> ToolCategoryV {
    ToolCategoryV {
        name_pt: "Teclado & Digitação",
        name_en: "Keyboard & Typing",
        rgb: (255u8, 167u8, 38u8),
        tools: seq![
            ToolEntry { name: "type_text", desc_pt: "Digitar texto via input simulation", desc_en: "Type text via input simulation" },
            ToolEntry { name: "type_text_chars", desc_pt: "Digitar char a char (lento, preciso)", desc_en: "Type char by char (slow, precise)" },
            ToolEntry { name: "press_key", desc_pt: "Pressionar tecla (enter, tab, esc...)", desc_en: "Press key (enter, tab, esc...)" },
            ToolEntry { name: "hotkey", desc_pt: "Atalho de teclado (ctrl+c, alt+f4...)", desc_en: "Keyboard shortcut (ctrl+c, alt+f4...)" },
            ToolEntry { name: "set_value", desc_pt: "Definir valor em controle UIA", desc_en: "Set value on UIA control" },
        ],
    }
}

fn keyboard_category() -> (r: ToolCategory)
    ensures
        r@ == keyboard_spec(),
{
    let mut tools: Vec<ToolEntry> = Vec::new();
    tools.push(ToolEntry { name: "type_text", desc_pt: "Digitar texto via input simulation", desc_en: "Type text via input simulation" });
    tools.push(ToolEntry { name: "type_text_chars", desc_pt: "Digitar char a char (lento, preciso)", desc_en: "Type char by char (slow, precise)" });
    tools.push(ToolEntry { name: "press_key", desc_pt: "Pressionar tecla (enter, tab, esc...)", desc_en: "Press key (enter, tab, esc...)" });
    tools.push(ToolEntry { name: "hotkey", desc_pt: "Atalho de teclado (ctrl+c, alt+f4...)", desc_en: "Keyboard shortcut (ctrl+c, alt+f4...)" });
    tools.push(ToolEntry { name: "set_value", desc_pt: "Definir valor em controle UIA", desc_en: "Set value on UIA control" });
    let r = ToolCategory { name_pt: "Teclado & Digitação", name_en: "Keyboard & Typing", rgb: (255, 167, 38), tools };
    assert(r.tools@ =~= keyboard_spec().tools);
    r
}

/// The category "Windows & Applications".
pub open spec fn windows_spec() -> ToolCategoryV {
    ToolCategoryV {
        name_pt: "Janelas & Aplicações",
        name_en: "Windows & Applications",
        rgb: (156u8, 39u8, 176u8),
        tools: seq![
            ToolEntry { name: "list_apps", desc_pt: "Listar aplicações instaladas", desc_en: "List installed applications" },
            ToolEntry { name: "list_windows", desc_pt: "Listar janelas ativas do sistema", desc_en: "List active system windows" },
            ToolEntry { name: "get_window_state", desc_pt: "Estado de uma janela específica", desc_en: "State of a specific window" },
            ToolEntry { name: "launch_app", desc_pt: "Iniciar aplicação", desc_en: "Launch application" },
            ToolEntry { name: "kill_app", desc_pt: "Encerrar aplicação", desc_en: "Kill application" },
            ToolEntry { name: "zoom", desc_pt: "Zoom em janela (coords relativas)", desc_en: "Zoom to window (relative coords)" },
        ],
    }
}

fn windows_category() -> (r: ToolCategory)
    ensures
        r@ == windows_spec(),
{
    let mut tools: Vec<ToolEntry> = Vec::new();
    tools.push(ToolEntry { name: "list_apps", desc_pt: "Listar aplicações instaladas", desc_en: "List installed applications" });
    tools.push(ToolEntry { name: "list_windows", desc_pt: "Listar janelas ativas do sistema", desc_en: "List active system windows" });
    tools.push(ToolEntry { name: "get_window_state", desc_pt: "Estado de uma janela específica", desc_en: "State of a specific window" });
    tools.push(ToolEntry { name: "launch_app", desc_pt: "Iniciar aplicação", desc_en: "Launch application" });
    tools.push(ToolEntry { name: "kill_app", desc_pt: "Encerrar aplicação", desc_en: "Kill application" });
    tools.push(ToolEntry { name: "zoom", desc_pt: "Zoom em janela (coords relativas)", desc_en: "Zoom to window (relative coords)" });
    let r = ToolCategory { name_pt: "Janelas & Aplicações", name_en: "Windows & Applications", rgb: (156, 39, 176), tools };
    assert(r.tools@ =~= windows_spec().tools);
    r
}

/// The category "Accessibility & UIA".
pub open spec fn accessibility_spec() -> ToolCategoryV {
    ToolCategoryV {
        name_pt: "Acessibilidade & UIA",
        name_en: "Accessibility & UIA",
        rgb: (0u8, 188u8, 212u8),
        tools: seq![
            ToolEntry { name: "get_accessibility_tree", desc_pt: "Árvore de acessibilidade (UIA tokens)", desc_en: "Accessibility tree (UIA tokens)" },
            ToolEntry { name: "check_permissions", desc_pt: "Verificar permissões do sistema", desc_en: "Check system permissions" },
        ],
    }
}

fn accessibility_category() -> (r: ToolCategory)
    ensures
        r@ == accessibility_spec(),
{
    let mut tools: Vec<ToolEntry> = Vec::new();
    tools.push(ToolEntry { name: "get_accessibility_tree", desc_pt: "Árvore de acessibilidade (UIA tokens)", desc_en: "Accessibility tree (UIA tokens)" });
    tools.push(ToolEntry { name: "check_permissions", desc_pt: "Verificar permissões do sistema", desc_en: "Check system permissions" });
    let r = ToolCategory { name_pt: "Acessibilidade & UIA", name_en: "Accessibility & UIA", rgb: (0, 188, 212), tools };
    assert(r.tools@ =~= accessibility_spec().tools);
    r
}

/// The category "Agent Cursor".
pub open spec fn agent_cursor_spec() -> ToolCategoryV {
    ToolCategoryV {
        name_pt: "Cursor do Agente",
        name_en: "Agent Cursor",
        rgb: (121u8, 134u8, 203u8),
        tools: seq![
            ToolEntry { name: "set_agent_cursor_enabled", desc_pt: "Ativar/desativar cursor do agente", desc_en: "Enable/disable agent cursor" },
            ToolEntry { name: "set_agent_cursor_motion", desc_pt: "Animação de movimento do cursor", desc_en: "Cursor motion animation" },
            ToolEntry { name: "set_agent_cursor_style", desc_pt: "Estilo visual do cursor", desc_en: "Cursor visual style" },
            ToolEntry { name: "get_agent_cursor_state", desc_pt: "Estado atual do cursor agente", desc_en: "Current agent cursor state" },
        ],
    }
}

fn agent_cursor_category() -> (r: ToolCategory)
    ensures
        r@ == agent_cursor_spec(),
{
    let mut tools: Vec<ToolEntry> = Vec::new();
    tools.push(ToolEntry { name: "set_agent_cursor_enabled", desc_pt: "Ativar/desativar cursor do agente", desc_en: "Enable/disable agent cursor" });
    tools.push(ToolEntry { name: "set_agent_cursor_motion", desc_pt: "Animação de movimento do cursor", desc_en: "Cursor motion animation" });
    tools.push(ToolEntry { name: "set_agent_cursor_style", desc_pt: "Estilo visual do cursor", desc_en: "Cursor visual style" });
    tools.push(ToolEntry { name: "get_agent_cursor_state", desc_pt: "Estado atual do cursor agente", desc_en: "Current agent cursor state" });
    let r = ToolCategory { name_pt: "Cursor do Agente", name_en: "Agent Cursor", rgb: (121, 134, 203), tools };
    assert(r.tools@ =~= agent_cursor_spec().tools);
    r
}

/// The category "Recording & Replay".
pub open spec fn recording_spec() -> ToolCategoryV {
    ToolCategoryV {
        name_pt: "Gravação & Replay",
        name_en: "Recording & Replay",
        rgb: (239u8, 83u8, 80u8),
        tools: seq![
            ToolEntry { name: "start_recording", desc_pt: "Iniciar gravação de sessão", desc_en: "Start session recording" },
            ToolEntry { name: "stop_recording", desc_pt: "Parar gravação e salvar", desc_en: "Stop recording and save" },
            ToolEntry { name: "get_recording", desc_pt: "Obter dados da gravação", desc_en: "Get recording data" },
            ToolEntry { name: "replay_recording", desc_pt: "Reproduzir gravação salva", desc_en: "Replay saved recording" },
            ToolEntry { name: "install_ffmpeg", desc_pt: "Instalar ffmpeg para vídeo", desc_en: "Install ffmpeg for video" },
        ],
    }
}

fn recording_category() -> (r: ToolCategory)
    ensures
        r@ == recording_spec(),
{
    let mut tools: Vec<ToolEntry> = Vec::new();
    tools.push(ToolEntry { name: "start_recording", desc_pt: "Iniciar gravação de sessão", desc_en: "Start session recording" });
    tools.push(ToolEntry { name: "stop_recording", desc_pt: "Parar gravação e salvar", desc_en: "Stop recording and save" });
    tools.push(ToolEntry { name: "get_recording", desc_pt: "Obter dados da gravação", desc_en: "Get recording data" });
    tools.push(ToolEntry { name: "replay_recording", desc_pt: "Reproduzir gravação salva", desc_en: "Replay saved recording" });
    tools.push(ToolEntry { name: "install_ffmpeg", desc_pt: "Instalar ffmpeg para vídeo", desc_en: "Install ffmpeg for video" });
    let r = ToolCategory { name_pt: "Gravação & Replay", name_en: "Recording & Replay", rgb: (239, 83, 80), tools };
    assert(r.tools@ =~= recording_spec().tools);
    r
}

/// The category "Session & Configuration".
pub open spec fn session_spec() -> ToolCategoryV {
    ToolCategoryV {
        name_pt: "Sessão & Configuração",
        name_en: "Session & Configuration",
        rgb: (84u8, 110u8, 122u8),
        tools: seq![
            ToolEntry { name: "session_start", desc_pt: "Iniciar sessão MCP isolada", desc_en: "Start isolated MCP session" },
            ToolEntry { name: "session_end", desc_pt: "Encerrar sessão MCP", desc_en: "End MCP session" },
            ToolEntry { name: "get_config", desc_pt: "Ler configuração atual", desc_en: "Read current configuration" },
            ToolEntry { name: "set_config", desc_pt: "Definir configuração", desc_en: "Set configuration" },
            ToolEntry { name: "health_report", desc_pt: "Relatório de saúde do sistema", desc_en: "System health report" },
            ToolEntry { name: "check_for_update", desc_pt: "Verificar atualizações", desc_en: "Check for updates" },
        ],
    }
}

fn session_category() -> (r: ToolCategory)
    ensures
        r@ == session_spec(),
{
    let mut tools: Vec<ToolEntry> = Vec::new();
    tools.push(ToolEntry { name: "session_start", desc_pt: "Iniciar sessão MCP isolada", desc_en: "Start isolated MCP session" });
    tools.push(ToolEntry { name: "session_end", desc_pt: "Encerrar sessão MCP", desc_en: "End MCP session" });
    tools.push(ToolEntry { name: "get_config", desc_pt: "Ler configuração atual", desc_en: "Read current configuration" });
    tools.push(ToolEntry { name: "set_config", desc_pt: "Definir configuração", desc_en: "Set configuration" });
    tools.push(ToolEntry { name: "health_report", desc_pt: "Relatório de saúde do sistema", desc_en: "System health report" });
    tools.push(ToolEntry { name: "check_for_update", desc_pt: "Verificar atualizações", desc_en: "Check for updates" });
    let r = ToolCategory { name_pt: "Sessão & Configuração", name_en: "Session & Configuration", rgb: (84, 110, 122), tools };
    assert(r.tools@ =~= session_spec().tools);
    r
}

/// The engine's tools, by category, as the tools screen lists them.
pub open spec fn catalog_spec() -> Seq<ToolCategoryV> {
    seq![vision_spec(), mouse_spec(), keyboard_spec(), windows_spec(), accessibility_spec(), agent_cursor_spec(), recording_spec(), session_spec()]
}

/// The catalogue of the engine's MCP tools.
pub fn mcp_tool_catalog() -> (r: Vec<ToolCategory>)
    ensures
        r@.map_values(|c: ToolCategory| c@) == catalog_spec(),
{
    let mut r: Vec<ToolCategory> = Vec::new();

    r.push(vision_category());
    r.push(mouse_category());
    r.push(keyboard_category());
    r.push(windows_category());
    r.push(accessibility_category());
    r.push(agent_cursor_category());
    r.push(recording_category());
    r.push(session_category());
    assert(r@.map_values(|c: ToolCategory| c@) =~= catalog_spec());
    r
}

/// The tools that run from the screen without parameters.
pub open spec fn no_param_tools() -> Seq<Seq<char>> {
    seq!["screenshot"@, "get_screen_size"@, "get_cursor_position"@, "get_desktop_state"@, "list_apps"@, "list_windows"@, "get_agent_cursor_state"@, "get_config"@, "health_report"@, "check_for_update"@, "check_permissions"@, "get_recording"@]
}

/// Whether the tool runs without parameters (the screen calls it directly).
pub fn runs_without_params(name: &str) -> (r: bool)
    ensures
        r == no_param_tools().contains(name@),
{
    let names: [&str; 12] = ["screenshot", "get_screen_size", "get_cursor_position", "get_desktop_state", "list_apps", "list_windows", "get_agent_cursor_state", "get_config", "health_report", "check_for_update", "check_permissions", "get_recording"];
    let ghost want = no_param_tools();
    let mut i: usize = 0;
    while i < 12
        invariant
            i <= 12,
            want == no_param_tools(),
            forall|k: int| 0 <= k < 12 ==> #[trigger] names@[k]@ == want[k],
            forall|k: int| 0 <= k < i ==> want[k] != name@,
        decreases 12 - i,
    {
        if names[i].to_owned() == name.to_owned() {
            assert(want[i as int] == name@);
            return true;
        }
        i = i + 1;
    }
    false
}


/// Whether a tool is shown under the filter: every tool when the lower-cased
/// filter is empty; otherwise when its name, or its description lower-cased
/// (in either language), contains the lower-cased filter.
pub open spec fn tool_match_spec(filter: Seq<char>, name: Seq<char>, desc_pt: Seq<char>, desc_en: Seq<char>) -> bool {
    let f = lowercase_of(filter);
    ||| f.len() == 0
    ||| contains_seq(name, f)
    ||| contains_seq(lowercase_of(desc_pt), f)
    ||| contains_seq(lowercase_of(desc_en), f)
}

pub fn tool_matches(filter: &str, name: &str, desc_pt: &str, desc_en: &str) -> (r: bool)
    ensures
        r == tool_match_spec(filter@, name@, desc_pt@, desc_en@),
{
    let f = to_lowercase(filter);
    if f.as_str().is_empty() {
        return true;
    }
    if str_contains(name, f.as_str()) {
        return true;
    }
    let p = to_lowercase(desc_pt);
    if str_contains(p.as_str(), f.as_str()) {
        return true;
    }
    let e = to_lowercase(desc_en);
    str_contains(e.as_str(), f.as_str())
}

/// An integer in decimal, with a minus sign when negative.
pub open spec fn int_text(n: int) -> Seq<char> {
    if n < 0 {
        seq!['-'] + decimal((-n) as nat)
    } else {
        decimal(n as nat)
    }
}

/// An exit code as Rust's `{:?}` shows an `Option<i32>`.
pub open spec fn exit_code_text(code: Option<i32>) -> Seq<char> {
    match code {
        Some(n) => "Some("@ + int_text(n as int) + ")"@,
        None => "None"@,
    }
}

/// The status after `cua-driver call <tool>` ran: its output when there is
/// any, else its error output, else its exit code.
pub open spec fn tool_call_text(tool: Seq<char>, stdout: Seq<char>, stderr: Seq<char>, code: Option<i32>) -> Seq<char> {
    if trim(stdout).len() > 0 {
        "["@ + tool + "] OK:\n"@ + trim(stdout)
    } else if trim(stderr).len() > 0 {
        "["@ + tool + "] stderr:\n"@ + trim(stderr)
    } else {
        "["@ + tool + "]: exit "@ + exit_code_text(code) + " (sem saida)"@
    }
}

pub fn tool_call_message(tool: &str, stdout: &str, stderr: &str, code: Option<i32>) -> (r: String)
    ensures
        r@ == tool_call_text(tool@, stdout@, stderr@, code),
{
    let o = trimmed(stdout);
    let e = trimmed(stderr);
    let mut out: Vec<char> = Vec::new();
    push_str(&mut out, "[");
    push_str(&mut out, tool);
    if !o.as_str().is_empty() {
        push_str(&mut out, "] OK:\n");
        push_str(&mut out, o.as_str());
    } else if !e.as_str().is_empty() {
        push_str(&mut out, "] stderr:\n");
        push_str(&mut out, e.as_str());
    } else {
        push_str(&mut out, "]: exit ");
        match code {
            Some(n) => {
                push_str(&mut out, "Some(");
                let w = n as i64;
                if w < 0 {
                    out.push('-');
                    push_chars(&mut out, decimal_chars((-w) as u64).as_slice());
                } else {
                    push_chars(&mut out, decimal_chars(w as u64).as_slice());
                }
                push_str(&mut out, ")");
            },
            None => {
                push_str(&mut out, "None");
            },
        }
        push_str(&mut out, " (sem saida)");
    }
    assert(out@ =~= tool_call_text(tool@, stdout@, stderr@, code));
    string_of(out.as_slice())
}

/// The status when `cua-driver` could not be run at all.
pub open spec fn tool_launch_failed_text(tool: Seq<char>) -> Seq<char> {
    "ERRO: nao foi possivel executar 'cua-driver call "@ + tool + "' (esta no PATH?)."@
}

pub fn tool_launch_failed_message(tool: &str) -> (r: String)
    ensures
        r@ == tool_launch_failed_text(tool@),
{
    let mut out: Vec<char> = Vec::new();
    push_str(&mut out, "ERRO: nao foi possivel executar 'cua-driver call ");
    push_str(&mut out, tool);
    push_str(&mut out, "' (esta no PATH?).");
    string_of(out.as_slice())
}

/// The status for a tool that needs parameters: how to call it instead.
pub open spec fn tool_needs_params_text(name: Seq<char>, lang: Language) -> Seq<char> {
    let (a, b) = match lang {
        Language::PtBr => (
            "Esta tool requer parâmetros. Use via MCP JSON-RPC ou CLI:\n\ncua-driver call"@,
            "--help\n\nOu envie via POST http://<ip>:8000/mcp com JSON-RPC."@,
        ),
        Language::English => (
            "This tool requires parameters. Use via MCP JSON-RPC or CLI:\n\ncua-driver call"@,
            "--help\n\nOr send via POST http://<ip>:8000/mcp with JSON-RPC."@,
        ),
    };
    "["@ + name + "] "@ + a + " '"@ + name + "' "@ + b
}

pub fn tool_needs_params_message(name: &str, lang: Language) -> (r: String)
    ensures
        r@ == tool_needs_params_text(name@, lang),
{
    let a = tr(
        lang,
        "Esta tool requer parâmetros. Use via MCP JSON-RPC ou CLI:\n\ncua-driver call",
        "This tool requires parameters. Use via MCP JSON-RPC or CLI:\n\ncua-driver call",
    );
    let b = tr(
        lang,
        "--help\n\nOu envie via POST http://<ip>:8000/mcp com JSON-RPC.",
        "--help\n\nOr send via POST http://<ip>:8000/mcp with JSON-RPC.",
    );
    let mut out: Vec<char> = Vec::new();
    push_str(&mut out, "[");
    push_str(&mut out, name);
    push_str(&mut out, "] ");
    push_str(&mut out, a);
    push_str(&mut out, " '");
    push_str(&mut out, name);
    push_str(&mut out, "' ");
    push_str(&mut out, b);
    string_of(out.as_slice())
}

} // verus!
