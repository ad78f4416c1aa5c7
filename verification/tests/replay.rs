use busca_local::animation::{
    AnimationEvent, AnimationScreen, MachineState, PlaybackSpeed, PlaybackState,
};

fn estado(id: usize, tasks: Vec<u32>) -> MachineState {
    let makespan = tasks.iter().sum();
    MachineState { id, tasks, makespan }
}

fn snapshot(tasks0: Vec<u32>) -> AnimationEvent {
    AnimationEvent::MachineSnapshot { machines: vec![estado(0, tasks0)] }
}

fn gerado(task_value: u32) -> AnimationEvent {
    AnimationEvent::TaskGenerated { machine_id: 0, task_value, task_index: 0 }
}

fn vista(screen: &AnimationScreen) -> Vec<Vec<u32>> {
    screen.machine_states.iter().map(|m| m.tasks.clone()).collect()
}

#[test]
fn velocidades_duracao() {
    assert_eq!(PlaybackSpeed::Slow.duration(), 2000);
    assert_eq!(PlaybackSpeed::Medium.duration(), 500);
    assert_eq!(PlaybackSpeed::Fast.duration(), 100);
    assert_eq!(PlaybackSpeed::VeryFast.duration(), 20);
}

#[test]
fn velocidades_saturam() {
    assert_eq!(PlaybackSpeed::Fast.next(), PlaybackSpeed::VeryFast);
    assert_eq!(PlaybackSpeed::VeryFast.next(), PlaybackSpeed::VeryFast);
    assert_eq!(PlaybackSpeed::Medium.prev(), PlaybackSpeed::Slow);
    assert_eq!(PlaybackSpeed::Slow.prev(), PlaybackSpeed::Slow);
}

#[test]
fn velocidades_nomes() {
    assert_eq!(PlaybackSpeed::Slow.as_str(), "Slow");
    assert_eq!(PlaybackSpeed::Medium.as_str(), "Medium");
    assert_eq!(PlaybackSpeed::Fast.as_str(), "Fast");
    assert_eq!(PlaybackSpeed::VeryFast.as_str(), "Very Fast");
}

#[test]
fn nova_animacao_mostra_primeiro_snapshot() {
    let trace = vec![gerado(7), gerado(9), snapshot(vec![7, 9]), snapshot(vec![9])];
    let screen = AnimationScreen::new(trace, "teste".to_string());
    assert_eq!(screen.current_step, 0);
    assert_eq!(screen.playback_state, PlaybackState::Paused);
    assert_eq!(screen.speed, PlaybackSpeed::Medium);
    assert_eq!(vista(&screen), vec![vec![7, 9]]);
    assert_eq!(screen.algorithm_name, "teste");
}

#[test]
fn nova_animacao_sem_snapshot_fica_vazia() {
    let screen = AnimationScreen::new(vec![gerado(1), gerado(2)], "t".to_string());
    assert!(screen.machine_states.is_empty());
}

#[test]
fn reconstrucao_usa_snapshot_mais_proximo() {
    // snapshot at index 1; indexes 2..4 carry none: scanning backward from
    // any of them lands on index 1
    let trace = vec![gerado(5), snapshot(vec![5]), gerado(6), gerado(7), gerado(8)];
    let mut screen = AnimationScreen::new(trace, "t".to_string());
    screen.step_forward(0);
    screen.step_forward(0);
    screen.step_forward(0);
    assert_eq!(screen.current_step, 3);
    assert_eq!(vista(&screen), vec![vec![5]]);
}

#[test]
fn passo_frente_e_volta_restaura_vista() {
    let trace = vec![
        snapshot(vec![1]),
        gerado(2),
        snapshot(vec![1, 2]),
        gerado(3),
        snapshot(vec![1, 2, 3]),
    ];
    let mut screen = AnimationScreen::new(trace, "t".to_string());
    screen.step_forward(0);
    assert_eq!(screen.current_step, 1);
    let antes = vista(&screen);
    screen.step_forward(0);
    assert_eq!(vista(&screen), vec![vec![1, 2]]);
    screen.step_backward(0);
    assert_eq!(screen.current_step, 1);
    assert_eq!(vista(&screen), antes);
}

#[test]
fn passo_no_fim_para_reproducao() {
    let mut screen = AnimationScreen::new(vec![snapshot(vec![1]), gerado(2)], "t".to_string());
    screen.step_forward(0);
    assert_eq!(screen.current_step, 1);
    screen.step_forward(0);
    assert_eq!(screen.current_step, 1);
    assert_eq!(screen.playback_state, PlaybackState::Stopped);
}

#[test]
fn passo_atras_em_zero_nao_faz_nada() {
    let mut screen = AnimationScreen::new(vec![snapshot(vec![1])], "t".to_string());
    screen.step_backward(0);
    assert_eq!(screen.current_step, 0);
    assert_eq!(screen.playback_state, PlaybackState::Paused);
}

#[test]
fn alternar_reproducao() {
    let mut screen = AnimationScreen::new(vec![snapshot(vec![1]), gerado(2)], "t".to_string());
    screen.toggle_playback(10);
    assert_eq!(screen.playback_state, PlaybackState::Playing);
    screen.toggle_playback(20);
    assert_eq!(screen.playback_state, PlaybackState::Paused);
}

#[test]
fn alternar_apos_parada_reinicia() {
    let mut screen = AnimationScreen::new(vec![snapshot(vec![1]), gerado(2)], "t".to_string());
    screen.step_forward(0);
    screen.step_forward(0);
    assert_eq!(screen.playback_state, PlaybackState::Stopped);
    screen.toggle_playback(30);
    assert_eq!(screen.current_step, 0);
    assert_eq!(screen.playback_state, PlaybackState::Playing);
}

#[test]
fn reiniciar_volta_ao_comeco() {
    let trace = vec![snapshot(vec![1]), gerado(2), snapshot(vec![1, 2])];
    let mut screen = AnimationScreen::new(trace, "t".to_string());
    screen.step_forward(0);
    screen.step_forward(0);
    screen.restart(40);
    assert_eq!(screen.current_step, 0);
    assert_eq!(screen.playback_state, PlaybackState::Paused);
    assert_eq!(vista(&screen), vec![vec![1]]);
}

#[test]
fn relogio_avanca_apos_periodo() {
    let mut screen = AnimationScreen::new(vec![snapshot(vec![1]), gerado(2)], "t".to_string());
    screen.toggle_playback(0);
    // medium speed: 500 ms per step
    assert!(!screen.update(499));
    assert_eq!(screen.current_step, 0);
    assert!(screen.update(500));
    assert_eq!(screen.current_step, 1);
    assert_eq!(screen.last_step_ms, 500);
}

#[test]
fn relogio_parado_nao_avanca() {
    let mut screen = AnimationScreen::new(vec![snapshot(vec![1]), gerado(2)], "t".to_string());
    assert!(!screen.update(10_000));
    assert_eq!(screen.current_step, 0);
}

#[test]
fn evento_atual() {
    let trace = vec![snapshot(vec![1]), gerado(42)];
    let mut screen = AnimationScreen::new(trace, "t".to_string());
    assert!(matches!(
        screen.current_event(),
        Some(AnimationEvent::MachineSnapshot { .. })
    ));
    screen.step_forward(0);
    assert!(matches!(
        screen.current_event(),
        Some(AnimationEvent::TaskGenerated { task_value: 42, .. })
    ));
    let vazio = AnimationScreen::new(Vec::new(), "t".to_string());
    assert!(vazio.current_event().is_none());
}
