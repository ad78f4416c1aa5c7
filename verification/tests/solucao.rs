use busca_local::animation::{AnimationEvent, EventLog};
use busca_local::blm::{mover_tarefa, ms_total, pos_ms_min, search_max_value, Maquina};
use busca_local::blnm::aplicar_busca_local;

fn maquina(tarefas: Vec<u32>, pos: i32) -> Maquina {
    Maquina { tarefas, pos }
}

fn cargas(maquinas: &[Maquina]) -> Vec<u32> {
    maquinas.iter().map(|m| m.ms_maquina()).collect()
}

fn conta_movimentos(events: &[AnimationEvent]) -> usize {
    events
        .iter()
        .filter(|e| matches!(e, AnimationEvent::TaskMoved { .. }))
        .count()
}

#[test]
fn maquina_nova_vazia() {
    let m = Maquina::new(3);
    assert_eq!(m.tarefas, vec![0, 0, 0]);
    assert_eq!(m.pos, -1);
    assert_eq!(m.ms_maquina(), 0);
}

#[test]
fn ms_maquina_soma_prefixo_ocupado() {
    assert_eq!(maquina(vec![70, 10, 5], 2).ms_maquina(), 85);
    assert_eq!(maquina(vec![70, 10, 5], 1).ms_maquina(), 80);
    assert_eq!(maquina(vec![70, 10, 5], -1).ms_maquina(), 0);
}

#[test]
fn ms_total_maior_carga() {
    let v = vec![maquina(vec![70, 10, 5], 2), maquina(vec![0, 0, 0], -1)];
    assert_eq!(ms_total(&v), 85);
    let v2 = vec![maquina(vec![5, 0], 0), maquina(vec![9, 2], 1)];
    assert_eq!(ms_total(&v2), 11);
}

#[test]
fn pos_ms_min_escolhe_menor() {
    let v = vec![maquina(vec![70, 10, 5], 2), maquina(vec![0, 0, 0], -1)];
    assert_eq!(pos_ms_min(&v), 1);
}

#[test]
fn pos_ms_min_empate_primeiro_indice() {
    let v = vec![maquina(vec![50, 0], 0), maquina(vec![50, 0], 0)];
    assert_eq!(pos_ms_min(&v), 0);
}

#[test]
fn search_max_value_empate_primeira_ocorrencia() {
    assert_eq!(search_max_value(&maquina(vec![5, 9, 9], 2), 0), 1);
    assert_eq!(search_max_value(&maquina(vec![9, 5, 9], 2), 0), 0);
}

#[test]
fn search_max_value_filtro() {
    // only values strictly below the bound count
    assert_eq!(search_max_value(&maquina(vec![5, 9, 3], 2), 9), 0);
    // no positive value passes: -1
    assert_eq!(search_max_value(&maquina(vec![0, 0], 1), 0), -1);
    assert_eq!(search_max_value(&maquina(vec![9, 9], 1), 9), -1);
}

#[test]
fn mover_tarefa_move_e_conserva() {
    let mut v = vec![maquina(vec![7, 8, 9], 2), maquina(vec![0, 0, 0], -1)];
    let t = mover_tarefa(&mut v, 0, 1, 1);
    assert_eq!(t, 8);
    assert_eq!(v[0].tarefas, vec![7, 9, 0]);
    assert_eq!(v[0].pos, 1);
    assert_eq!(v[1].tarefas, vec![8, 0, 0]);
    assert_eq!(v[1].pos, 0);
    assert_eq!(v[0].ms_maquina() + v[1].ms_maquina(), 24);
}

#[test]
fn cenario_busca_local_move_70() {
    // Two machines, tasks [70, 10, 5] all on machine 0: the 70 moves to
    // machine 1 (0 + 70 <= 85), then machine 0 (load 15) is the least loaded
    // and the search stops.  Final makespan 70, exactly one move.
    let mut v = vec![maquina(vec![70, 10, 5], 2), maquina(vec![0, 0, 0], -1)];
    let mut log = EventLog::new(true);
    aplicar_busca_local(&mut v, &mut log);
    assert_eq!(cargas(&v), vec![15, 70]);
    assert_eq!(ms_total(&v), 70);
    assert_eq!(conta_movimentos(&log.events), 1);
}

#[test]
fn cenario_busca_local_empate() {
    // Two machines, tasks [50, 50] on machine 0: one 50 moves, then the
    // loads tie at 50/50 and the lowest index wins, so machine 0 is the
    // minimum and the search stops.  Final makespan 50, one move.
    let mut v = vec![maquina(vec![50, 50], 1), maquina(vec![0, 0], -1)];
    let mut log = EventLog::new(true);
    aplicar_busca_local(&mut v, &mut log);
    assert_eq!(cargas(&v), vec![50, 50]);
    assert_eq!(ms_total(&v), 50);
    assert_eq!(conta_movimentos(&log.events), 1);
}

#[test]
fn busca_local_conserva_carga_total() {
    let mut v = vec![
        maquina(vec![30, 20, 10, 5], 3),
        maquina(vec![0, 0, 0, 0], -1),
        maquina(vec![0, 0, 0, 0], -1),
    ];
    let antes: u32 = cargas(&v).iter().sum();
    let ms_antes = ms_total(&v);
    let mut log = EventLog::new(false);
    aplicar_busca_local(&mut v, &mut log);
    let depois: u32 = cargas(&v).iter().sum();
    assert_eq!(antes, depois);
    assert!(ms_total(&v) <= ms_antes);
    assert!(log.events.is_empty());
}
