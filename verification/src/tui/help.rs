//! Help texts: key bindings of each view and the footer hint.

use vstd::prelude::*;

use super::app::CurrentView;

verus! {

/// One key binding shown in the help window.
pub struct HelpEntry {
    /// The key or keys.
    pub key: String,
    /// What they do.
    pub desc: String,
}

impl HelpEntry {
    /// An entry for `key` doing `desc`.
    pub fn new(key: &str, desc: &str) -> (e: HelpEntry)
        ensures
            e.key@ == key@,
            e.desc@ == desc@,
    {
        HelpEntry { key: key.to_owned(), desc: desc.to_owned() }
    }
}

/// View of help entries as (key, description) pairs.
pub open spec fn entries_view(v: Seq<HelpEntry>) -> Seq<(Seq<char>, Seq<char>)> {
    v.map_values(|e: HelpEntry| (e.key@, e.desc@))
}
/// Key bindings of the ServerList view.
pub open spec fn server_list_help() -> Seq<(Seq<char>, Seq<char>)> {
    seq![
        ("j/k ou ↑/↓"@, "Navegar na lista"@),
        ("Enter"@, "Conectar SSH (shell nativo)"@),
        ("s"@, "Abrir SFTP"@),
        ("a"@, "Adicionar servidor"@),
        ("e"@, "Editar servidor selecionado"@),
        ("d"@, "Remover servidor"@),
        ("p"@, "Fixar/desfixar servidor"@),
        ("/"@, "Buscar servidores"@),
        ("i"@, "Importar do ~/.ssh/config"@),
        ("y"@, "Copiar hostname"@),
        ("Y"@, "Copiar user@host:port"@),
        ("t"@, "Testar conexão"@),
        ("Ctrl+L"@, "Toggle log por servidor"@),
        ("O"@, "Ordenar por..."@),
        ("f"@, "Mostrar favoritos"@),
        ("q"@, "Sair"@),
        ("?"@, "Esta ajuda"@),
    ]
}

/// Key bindings of the SshTerminal view.
pub open spec fn ssh_terminal_help() -> Seq<(Seq<char>, Seq<char>)> {
    seq![
        ("Qualquer tecla"@, "Enviar ao terminal remoto"@),
        ("Ctrl+Q ou Esc"@, "Desconectar"@),
        ("PageUp/PageDown"@, "Rolar 10 linhas"@),
        ("Mouse scroll"@, "Rolar 3 linhas"@),
        ("?"@, "Esta ajuda"@),
    ]
}

/// Key bindings of the SftpBrowser view.
pub open spec fn sftp_browser_help() -> Seq<(Seq<char>, Seq<char>)> {
    seq![
        ("Tab"@, "Alternar painel"@),
        ("j/k ou ↑/↓"@, "Navegar na lista"@),
        ("Enter"@, "Entrar no diretório"@),
        ("Backspace"@, "Voltar ao pai"@),
        ("Space"@, "Selecionar arquivo"@),
        ("a"@, "Selecionar todos"@),
        ("u"@, "Upload selecionados"@),
        ("d"@, "Download selecionados"@),
        ("r"@, "Atualizar listagem"@),
        ("M"@, "Criar pasta (mkdir)"@),
        ("R"@, "Renomear"@),
        ("x"@, "Remover arquivo/pasta"@),
        ("m"@, "Alterar permissões (chmod)"@),
        ("b"@, "Salvar bookmark"@),
        ("B"@, "Listar bookmarks"@),
        ("q/Esc"@, "Voltar à lista"@),
        ("?"@, "Esta ajuda"@),
    ]
}

/// Key bindings of a view.
pub open spec fn help_for(view: CurrentView) -> Seq<(Seq<char>, Seq<char>)> {
    match view {
        CurrentView::ServerList => server_list_help(),
        CurrentView::SshTerminal => ssh_terminal_help(),
        CurrentView::SftpBrowser => sftp_browser_help(),
    }
}

fn push_entry(v: &mut Vec<HelpEntry>, key: &str, desc: &str)
    ensures
        entries_view(final(v)@) == entries_view(old(v)@).push((key@, desc@)),
{
    let ghost before = v@;
    let e = HelpEntry::new(key, desc);
    v.push(e);
    assert(entries_view(v@) =~= entries_view(before).push((key@, desc@)));
}

/// The key bindings shown in the help window of a view.
pub fn help_entries_for_view(view: &CurrentView) -> (r: Vec<HelpEntry>)
    ensures
        entries_view(r@) == help_for(*view),
{
    let mut v: Vec<HelpEntry> = Vec::new();
    match view {
        CurrentView::ServerList => {
            push_entry(&mut v, "j/k ou ↑/↓", "Navegar na lista");
            push_entry(&mut v, "Enter", "Conectar SSH (shell nativo)");
            push_entry(&mut v, "s", "Abrir SFTP");
            push_entry(&mut v, "a", "Adicionar servidor");
            push_entry(&mut v, "e", "Editar servidor selecionado");
            push_entry(&mut v, "d", "Remover servidor");
            push_entry(&mut v, "p", "Fixar/desfixar servidor");
            push_entry(&mut v, "/", "Buscar servidores");
            push_entry(&mut v, "i", "Importar do ~/.ssh/config");
            push_entry(&mut v, "y", "Copiar hostname");
            push_entry(&mut v, "Y", "Copiar user@host:port");
            push_entry(&mut v, "t", "Testar conexão");
            push_entry(&mut v, "Ctrl+L", "Toggle log por servidor");
            push_entry(&mut v, "O", "Ordenar por...");
            push_entry(&mut v, "f", "Mostrar favoritos");
            push_entry(&mut v, "q", "Sair");
            push_entry(&mut v, "?", "Esta ajuda");
            assert(entries_view(v@) =~= server_list_help());
        },
        CurrentView::SshTerminal => {
            push_entry(&mut v, "Qualquer tecla", "Enviar ao terminal remoto");
            push_entry(&mut v, "Ctrl+Q ou Esc", "Desconectar");
            push_entry(&mut v, "PageUp/PageDown", "Rolar 10 linhas");
            push_entry(&mut v, "Mouse scroll", "Rolar 3 linhas");
            push_entry(&mut v, "?", "Esta ajuda");
            assert(entries_view(v@) =~= ssh_terminal_help());
        },
        CurrentView::SftpBrowser => {
            push_entry(&mut v, "Tab", "Alternar painel");
            push_entry(&mut v, "j/k ou ↑/↓", "Navegar na lista");
            push_entry(&mut v, "Enter", "Entrar no diretório");
            push_entry(&mut v, "Backspace", "Voltar ao pai");
            push_entry(&mut v, "Space", "Selecionar arquivo");
            push_entry(&mut v, "a", "Selecionar todos");
            push_entry(&mut v, "u", "Upload selecionados");
            push_entry(&mut v, "d", "Download selecionados");
            push_entry(&mut v, "r", "Atualizar listagem");
            push_entry(&mut v, "M", "Criar pasta (mkdir)");
            push_entry(&mut v, "R", "Renomear");
            push_entry(&mut v, "x", "Remover arquivo/pasta");
            push_entry(&mut v, "m", "Alterar permissões (chmod)");
            push_entry(&mut v, "b", "Salvar bookmark");
            push_entry(&mut v, "B", "Listar bookmarks");
            push_entry(&mut v, "q/Esc", "Voltar à lista");
            push_entry(&mut v, "?", "Esta ajuda");
            assert(entries_view(v@) =~= sftp_browser_help());
        },
    }
    v
}

/// The key hint shown in the footer of a view.
pub open spec fn footer_for(view: CurrentView) -> Seq<char> {
    match view {
        CurrentView::ServerList => "j/k:Navegar  Enter:Conectar  a:Novo  ?:Ajuda"@,
        CurrentView::SshTerminal => "Ctrl+Q:Sair  ?:Ajuda"@,
        CurrentView::SftpBrowser => "Tab:Alternar  u:Upload  d:Download  ?:Ajuda"@,
    }
}

/// The key hint shown in the footer of a view.
pub fn footer_hint_for_view(view: &CurrentView) -> (r: String)
    ensures
        r@ == footer_for(*view),
{
    match view {
        CurrentView::ServerList => "j/k:Navegar  Enter:Conectar  a:Novo  ?:Ajuda".to_owned(),
        CurrentView::SshTerminal => "Ctrl+Q:Sair  ?:Ajuda".to_owned(),
        CurrentView::SftpBrowser => "Tab:Alternar  u:Upload  d:Download  ?:Ajuda".to_owned(),
    }
}

} // verus!
