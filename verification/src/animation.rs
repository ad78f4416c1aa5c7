use vstd::prelude::*;
use crate::blm::Maquina;
use crate::blm::cargas_ok;

verus! {

// ---------------------------------------------------------------------------
// Event trace protocol
// ---------------------------------------------------------------------------

/// One step of an algorithm run, as recorded for later replay.
#[derive(Debug, Clone)]
pub enum AnimationEvent {
    TaskGenerated { machine_id: usize, task_value: u32, task_index: usize },
    ComparingMachines { min_machine_id: usize, min_makespan: u32, total_makespan: u32 },
    EvaluatingMove {
        from_machine: usize,
        to_machine: usize,
        task_value: u32,
        task_index: usize,
        new_makespan_would_be: u32,
        current_makespan: u32,
        will_move: bool,
    },
    TaskMoved {
        from_machine: usize,
        to_machine: usize,
        task_value: u32,
        old_makespan: u32,
        new_makespan: u32,
    },
    MakespanUpdated { machine_id: usize, old_makespan: u32, new_makespan: u32 },
    IterationComplete { iteration: u32, total_makespan: u32 },
    PerturbationStart { iteration: u32, num_moves: usize },
    PerturbationMove { from_machine: usize, to_machine: usize, task_value: u32 },
    LocalSearchStart { iteration: u32 },
    BestSolutionUpdated { iteration: u32, old_best: u32, new_best: u32 },
    NoImprovement { iteration: u32, stagnation_count: u32 },
    AlgorithmComplete { final_makespan: u32, total_moves: u32 },
    MachineSnapshot { machines: Vec<MachineState> },
}

/// A self-contained copy of one machine for display: its id, the tasks it
/// held when the snapshot was taken, and its load at that moment.
#[derive(Debug, Clone)]
pub struct MachineState {
    pub id: usize,
    pub tasks: Vec<u32>,
    pub makespan: u32,
}

/// Whether an event is a full-state snapshot.
pub open spec fn eh_snapshot(e: AnimationEvent) -> bool {
    e is MachineSnapshot
}

/// The variety of an event, for counting and vocabulary claims.
pub enum TipoEvento {
    Gerada,
    Comparacao,
    Avaliacao,
    Movida,
    MakespanAtualizado,
    IteracaoCompleta,
    InicioPerturbacao,
    MovPerturbacao,
    InicioBusca,
    Melhora,
    Estagnacao,
    Completo,
    Instantaneo,
}

pub open spec fn tipo(e: AnimationEvent) -> TipoEvento {
    match e {
        AnimationEvent::TaskGenerated { .. } => TipoEvento::Gerada,
        AnimationEvent::ComparingMachines { .. } => TipoEvento::Comparacao,
        AnimationEvent::EvaluatingMove { .. } => TipoEvento::Avaliacao,
        AnimationEvent::TaskMoved { .. } => TipoEvento::Movida,
        AnimationEvent::MakespanUpdated { .. } => TipoEvento::MakespanAtualizado,
        AnimationEvent::IterationComplete { .. } => TipoEvento::IteracaoCompleta,
        AnimationEvent::PerturbationStart { .. } => TipoEvento::InicioPerturbacao,
        AnimationEvent::PerturbationMove { .. } => TipoEvento::MovPerturbacao,
        AnimationEvent::LocalSearchStart { .. } => TipoEvento::InicioBusca,
        AnimationEvent::BestSolutionUpdated { .. } => TipoEvento::Melhora,
        AnimationEvent::NoImprovement { .. } => TipoEvento::Estagnacao,
        AnimationEvent::AlgorithmComplete { .. } => TipoEvento::Completo,
        AnimationEvent::MachineSnapshot { .. } => TipoEvento::Instantaneo,
    }
}

/// How many events of variety `k` the trace holds.
pub open spec fn conta_tipo(t: Seq<AnimationEvent>, k: TipoEvento) -> int
    decreases t.len(),
{
    if t.len() == 0 {
        0
    } else {
        conta_tipo(t.drop_last(), k) + if tipo(t.last()) == k {
            1int
        } else {
            0int
        }
    }
}

/// Appending one event raises exactly its own variety's count.
pub broadcast proof fn lemma_conta_tipo_push(t: Seq<AnimationEvent>, k: TipoEvento, e: AnimationEvent)
    ensures
        #[trigger] conta_tipo(t.push(e), k) == conta_tipo(t, k) + if tipo(e) == k {
            1int
        } else {
            0int
        },
{
    assert(t.push(e).drop_last() =~= t);
}

/// A recorded transfer the engine may emit: always away from the source
/// machine 0, and never raising the makespan.
pub open spec fn movida_valida(e: AnimationEvent) -> bool {
    match e {
        AnimationEvent::TaskMoved { from_machine, old_makespan, new_makespan, .. } => from_machine
            == 0 && new_makespan <= old_makespan,
        _ => true,
    }
}

/// Every event from position `desde` on is a transfer the engine may emit.
pub open spec fn sufixo_movidas_validas(t: Seq<AnimationEvent>, desde: int) -> bool {
    forall|j: int| desde <= j < t.len() ==> movida_valida(#[trigger] t[j])
}

pub broadcast proof fn lemma_sufixo_movidas_push(t: Seq<AnimationEvent>, desde: int, e: AnimationEvent)
    requires
        0 <= desde,
        sufixo_movidas_validas(t, desde),
        movida_valida(e),
    ensures
        #[trigger] sufixo_movidas_validas(t.push(e), desde),
{
    assert forall|j: int| desde <= j < t.push(e).len() implies movida_valida(
        #[trigger] t.push(e)[j],
    ) by {
        if j < t.len() {
            assert(t.push(e)[j] == t[j]);
        }
    }
}

/// Valid-transfer suffixes compose across an extension of the trace.
pub proof fn lemma_sufixo_movidas_trans(a: Seq<AnimationEvent>, b: Seq<AnimationEvent>, desde: int)
    requires
        0 <= desde <= a.len(),
        a.is_prefix_of(b),
        sufixo_movidas_validas(a, desde),
        sufixo_movidas_validas(b, a.len() as int),
    ensures
        sufixo_movidas_validas(b, desde),
{
    assert forall|j: int| desde <= j < b.len() implies movida_valida(#[trigger] b[j]) by {
        if j < a.len() {
            assert(a[j] == b.subrange(0, a.len() as int)[j]);
        }
    }
}

/// From position `desde` on, every perturbation move is immediately followed
/// by a snapshot.
pub open spec fn perturbacoes_com_snapshot(t: Seq<AnimationEvent>, desde: int) -> bool {
    forall|j: int|
        desde <= j < t.len() && tipo(#[trigger] t[j]) == TipoEvento::MovPerturbacao ==> j + 1
            < t.len() && tipo(t[j + 1]) == TipoEvento::Instantaneo
}

pub proof fn lemma_perturbacoes_snapshot_par(
    t: Seq<AnimationEvent>,
    desde: int,
    mv: AnimationEvent,
    snap: AnimationEvent,
)
    requires
        0 <= desde,
        perturbacoes_com_snapshot(t, desde),
        tipo(snap) == TipoEvento::Instantaneo,
    ensures
        perturbacoes_com_snapshot(t.push(mv).push(snap), desde),
{
    let t2 = t.push(mv).push(snap);
    assert forall|j: int|
        desde <= j < t2.len() && tipo(#[trigger] t2[j]) == TipoEvento::MovPerturbacao implies j + 1
        < t2.len() && tipo(t2[j + 1]) == TipoEvento::Instantaneo by {
        if j < t.len() {
            assert(t2[j] == t[j]);
            assert(j + 1 < t.len());
            assert(t2[j + 1] == t[j + 1]);
        } else if j == t.len() {
            assert(t2[j] == mv);
            assert(t2[j + 1] == snap);
        } else {
            assert(t2[j] == snap);
        }
    }
}

/// The running stagnation count a no-improvement event reports (0 for any
/// other event).
pub open spec fn contagem_estagnacao(e: AnimationEvent) -> u32 {
    match e {
        AnimationEvent::NoImprovement { stagnation_count, .. } => stagnation_count,
        _ => 0,
    }
}

/// `estados` is a faithful snapshot of the solution `ms`: one entry per
/// machine carrying its index, its held tasks and its load.
pub open spec fn instantanea_de(estados: Seq<MachineState>, ms: Seq<Maquina>) -> bool {
    &&& estados.len() == ms.len()
    &&& forall|i: int|
        0 <= i < ms.len() ==> (#[trigger] estados[i]).id == i && estados[i].tasks@
            == ms[i].ativas() && estados[i].makespan == ms[i].carga()
}

impl MachineState {
    /// Snapshot of one machine: its occupied prefix and its load.
    pub fn from_maquina(id: usize, maquina: &Maquina) -> (r: MachineState)
        requires
            maquina.wf(),
            maquina.carga() <= u32::MAX,
        ensures
            r.id == id,
            r.tasks@ == maquina.ativas(),
            r.makespan == maquina.carga(),
    {
        let mut tasks: Vec<u32> = Vec::new();
        if maquina.pos >= 0 {
            let fim: usize = maquina.pos as usize;
            let mut i: usize = 0;
            while i <= fim
                invariant
                    maquina.wf(),
                    0 <= maquina.pos,
                    fim == maquina.pos,
                    i <= fim + 1,
                    tasks@ == maquina.tarefas@.subrange(0, i as int),
                decreases fim + 1 - i,
            {
                tasks.push(maquina.tarefas[i]);
                proof {
                    assert(tasks@ =~= maquina.tarefas@.subrange(0, i + 1));
                }
                i = i + 1;
            }
        }
        proof {
            assert(tasks@ =~= maquina.ativas());
        }
        let makespan = maquina.ms_maquina();
        MachineState { id, tasks, makespan }
    }

    /// Snapshot of every machine, in index order.
    pub fn from_maquinas(maquinas: &Vec<Maquina>) -> (r: Vec<MachineState>)
        requires
            cargas_ok(maquinas@),
        ensures
            instantanea_de(r@, maquinas@),
    {
        let mut r: Vec<MachineState> = Vec::new();
        let mut i: usize = 0;
        while i < maquinas.len()
            invariant
                cargas_ok(maquinas@),
                i <= maquinas@.len(),
                r@.len() == i,
                forall|j: int|
                    0 <= j < i ==> (#[trigger] r@[j]).id == j && r@[j].tasks@
                        == maquinas@[j].ativas() && r@[j].makespan == maquinas@[j].carga(),
            decreases maquinas@.len() - i,
        {
            let estado = MachineState::from_maquina(i, &maquinas[i]);
            r.push(estado);
            i = i + 1;
        }
        r
    }
}

// ---------------------------------------------------------------------------
// Event collection
// ---------------------------------------------------------------------------

/// The optional observer both algorithms stream events into.  When disabled
/// it stays empty and the algorithms skip event construction entirely, so the
/// side channel never influences a run.
pub struct EventLog {
    pub enabled: bool,
    pub events: Vec<AnimationEvent>,
}

impl EventLog {
    pub fn new(enabled: bool) -> (r: EventLog)
        ensures
            r.enabled == enabled,
            r.events@.len() == 0,
    {
        EventLog { enabled, events: Vec::new() }
    }
}

/// Appending an event keeps every earlier prefix a prefix.
pub broadcast proof fn lemma_prefixo_push(a: Seq<AnimationEvent>, b: Seq<AnimationEvent>, x: AnimationEvent)
    requires
        a.is_prefix_of(b),
    ensures
        #[trigger] a.is_prefix_of(b.push(x)),
{
    assert(b.push(x).subrange(0, a.len() as int) =~= b.subrange(0, a.len() as int));
}

pub proof fn lemma_prefixo_refl(a: Seq<AnimationEvent>)
    ensures
        a.is_prefix_of(a),
{
    assert(a.subrange(0, a.len() as int) =~= a);
}

pub proof fn lemma_prefixo_trans(a: Seq<AnimationEvent>, b: Seq<AnimationEvent>, c: Seq<AnimationEvent>)
    requires
        a.is_prefix_of(b),
        b.is_prefix_of(c),
    ensures
        a.is_prefix_of(c),
{
    assert forall|i: int| 0 <= i < a.len() implies a[i] == c.subrange(0, a.len() as int)[i] by {
        assert(a[i] == b.subrange(0, b.len() as int)[i]);
    }
    assert(a =~= c.subrange(0, a.len() as int));
}

/// Contract shorthand for how an algorithm extends an event log: the old
/// events stay as a prefix, a disabled log is untouched, and an enabled log
/// grows and ends with a snapshot.
pub open spec fn log_estendido(antes: EventLog, depois: EventLog) -> bool {
    &&& depois.enabled == antes.enabled
    &&& antes.events@.is_prefix_of(depois.events@)
    &&& !antes.enabled ==> depois.events@ == antes.events@
    &&& antes.enabled ==> depois.events@.len() > antes.events@.len() && eh_snapshot(
        depois.events@.last(),
    )
}

// ---------------------------------------------------------------------------
// Replay: deterministic state reconstruction
// ---------------------------------------------------------------------------

/// The machine list a snapshot event carries (empty for any other event).
pub open spec fn maquinas_do_snapshot(e: AnimationEvent) -> Seq<MachineState> {
    match e {
        AnimationEvent::MachineSnapshot { machines } => machines@,
        _ => Seq::empty(),
    }
}

/// Index of the nearest snapshot at or before `i`, or -1 when none exists.
pub open spec fn achar_snapshot_atras(t: Seq<AnimationEvent>, i: int) -> int
    decreases i + 1,
{
    if i < 0 {
        -1
    } else if 0 <= i < t.len() && eh_snapshot(t[i]) {
        i
    } else {
        achar_snapshot_atras(t, i - 1)
    }
}

/// Index of the first snapshot at or after `i`, or -1 when none exists.
pub open spec fn achar_snapshot_frente(t: Seq<AnimationEvent>, i: int) -> int
    decreases t.len() - i,
{
    if i < 0 || i >= t.len() {
        -1
    } else if eh_snapshot(t[i]) {
        i
    } else {
        achar_snapshot_frente(t, i + 1)
    }
}

/// The machine-state view a replay shows at step `i`: the nearest snapshot at
/// or before `i`, or the empty view when no snapshot precedes `i`.
pub open spec fn vista_em(t: Seq<AnimationEvent>, i: int) -> Seq<MachineState> {
    if achar_snapshot_atras(t, i) >= 0 {
        maquinas_do_snapshot(t[achar_snapshot_atras(t, i)])
    } else {
        Seq::empty()
    }
}

/// The view a freshly initialized replay shows: the first snapshot anywhere
/// in the trace, or the empty view when the trace has none.
pub open spec fn vista_inicial(t: Seq<AnimationEvent>) -> Seq<MachineState> {
    if achar_snapshot_frente(t, 0) >= 0 {
        maquinas_do_snapshot(t[achar_snapshot_frente(t, 0)])
    } else {
        Seq::empty()
    }
}

/// Two machine-state lists that display the same thing.
pub open spec fn mesmas_vistas(a: Seq<MachineState>, b: Seq<MachineState>) -> bool {
    &&& a.len() == b.len()
    &&& forall|i: int|
        0 <= i < a.len() ==> (#[trigger] a[i]).id == b[i].id && a[i].tasks@ == b[i].tasks@
            && a[i].makespan == b[i].makespan
}

/// Snapshot sufficiency: once a snapshot stands at or before an index,
/// scanning backward from that index always finds one, so reconstruction
/// never reaches an undefined state.
pub proof fn lemma_snapshot_suficiente(t: Seq<AnimationEvent>, j: int, i: int)
    requires
        0 <= j <= i < t.len(),
        eh_snapshot(t[j]),
    ensures
        j <= achar_snapshot_atras(t, i) <= i,
        eh_snapshot(t[achar_snapshot_atras(t, i)]),
    decreases i - j,
{
    if !eh_snapshot(t[i]) {
        lemma_snapshot_suficiente(t, j, i - 1);
    }
}

/// Replay determinism: two replays over the same trace at the same step,
/// each holding the reconstructed view for that step, display identical
/// views — reconstruction depends on the trace and the step alone.
pub proof fn lemma_replay_deterministico(a: AnimationScreen, b: AnimationScreen)
    requires
        a.events@ == b.events@,
        a.current_step == b.current_step,
        mesmas_vistas(a.machine_states@, vista_em(a.events@, a.current_step as int)),
        mesmas_vistas(b.machine_states@, vista_em(b.events@, b.current_step as int)),
    ensures
        mesmas_vistas(a.machine_states@, b.machine_states@),
{
}

/// An empty trace has no snapshot to find.
proof fn lemma_achar_atras_vazio(t: Seq<AnimationEvent>, i: int)
    requires
        t.len() == 0,
    ensures
        achar_snapshot_atras(t, i) == -1,
    decreases i + 1,
{
    if i >= 0 {
        lemma_achar_atras_vazio(t, i - 1);
    }
}

/// A scan that passed index `k` without a hit and then found a snapshot at
/// `k` (or ran out at -1) computed `achar_snapshot_atras`.
proof fn lemma_achar_atras_calculado(t: Seq<AnimationEvent>, i: int, k: int)
    requires
        -1 <= k <= i < t.len(),
        forall|j: int| k < j <= i ==> !eh_snapshot(#[trigger] t[j]),
        k >= 0 ==> eh_snapshot(t[k]),
    ensures
        achar_snapshot_atras(t, i) == k,
    decreases i - k,
{
    if i > k {
        lemma_achar_atras_calculado(t, i - 1, k);
    }
}

/// A scan that reached index `k` from the front without a hit and then found
/// a snapshot at `k` (or ran out at the end) computed `achar_snapshot_frente`.
proof fn lemma_achar_frente_calculado(t: Seq<AnimationEvent>, i: int, k: int)
    requires
        0 <= i <= k <= t.len(),
        forall|j: int| i <= j < k ==> !eh_snapshot(#[trigger] t[j]),
        k < t.len() ==> eh_snapshot(t[k]),
    ensures
        achar_snapshot_frente(t, i) == if k < t.len() {
            k
        } else {
            -1
        },
    decreases k - i,
{
    if i < k {
        lemma_achar_frente_calculado(t, i + 1, k);
    }
}

// ---------------------------------------------------------------------------
// Replay navigation
// ---------------------------------------------------------------------------

#[derive(Debug, Clone, PartialEq, Eq, Structural)]
pub enum PlaybackState {
    Playing,
    Paused,
    Stopped,
}

#[derive(Debug, Clone, Copy, PartialEq, Eq, Structural)]
pub enum PlaybackSpeed {
    Slow,
    Medium,
    Fast,
    VeryFast,
}

impl PlaybackSpeed {
    /// Milliseconds a replay step lasts at this speed.
    pub open spec fn duracao_ms(self) -> u64 {
        match self {
            PlaybackSpeed::Slow => 2000,
            PlaybackSpeed::Medium => 500,
            PlaybackSpeed::Fast => 100,
            PlaybackSpeed::VeryFast => 20,
        }
    }

    /// The next faster speed; the fastest saturates.
    pub open spec fn proxima(self) -> PlaybackSpeed {
        match self {
            PlaybackSpeed::Slow => PlaybackSpeed::Medium,
            PlaybackSpeed::Medium => PlaybackSpeed::Fast,
            PlaybackSpeed::Fast => PlaybackSpeed::VeryFast,
            PlaybackSpeed::VeryFast => PlaybackSpeed::VeryFast,
        }
    }

    /// The next slower speed; the slowest saturates.
    pub open spec fn anterior(self) -> PlaybackSpeed {
        match self {
            PlaybackSpeed::Slow => PlaybackSpeed::Slow,
            PlaybackSpeed::Medium => PlaybackSpeed::Slow,
            PlaybackSpeed::Fast => PlaybackSpeed::Medium,
            PlaybackSpeed::VeryFast => PlaybackSpeed::Fast,
        }
    }

    /// Milliseconds between automatic steps at this speed.
    pub fn duration(&self) -> (d: u64)
        ensures
            d == self.duracao_ms(),
    {
        match self {
            PlaybackSpeed::Slow => 2000,
            PlaybackSpeed::Medium => 500,
            PlaybackSpeed::Fast => 100,
            PlaybackSpeed::VeryFast => 20,
        }
    }

    pub fn next(&self) -> (r: PlaybackSpeed)
        ensures
            r == self.proxima(),
    {
        match self {
            PlaybackSpeed::Slow => PlaybackSpeed::Medium,
            PlaybackSpeed::Medium => PlaybackSpeed::Fast,
            PlaybackSpeed::Fast => PlaybackSpeed::VeryFast,
            PlaybackSpeed::VeryFast => PlaybackSpeed::VeryFast,
        }
    }

    pub fn prev(&self) -> (r: PlaybackSpeed)
        ensures
            r == self.anterior(),
    {
        match self {
            PlaybackSpeed::Slow => PlaybackSpeed::Slow,
            PlaybackSpeed::Medium => PlaybackSpeed::Slow,
            PlaybackSpeed::Fast => PlaybackSpeed::Medium,
            PlaybackSpeed::VeryFast => PlaybackSpeed::Fast,
        }
    }

    pub fn as_str(&self) -> (s: &str)
        ensures
            *self is Slow ==> s@ == "Slow"@,
            *self is Medium ==> s@ == "Medium"@,
            *self is Fast ==> s@ == "Fast"@,
            *self is VeryFast ==> s@ == "Very Fast"@,
    {
        match self {
            PlaybackSpeed::Slow => "Slow",
            PlaybackSpeed::Medium => "Medium",
            PlaybackSpeed::Fast => "Fast",
            PlaybackSpeed::VeryFast => "Very Fast",
        }
    }
}

fn copiar_tarefas(v: &Vec<u32>) -> (r: Vec<u32>)
    ensures
        r@ == v@,
{
    let mut r: Vec<u32> = Vec::new();
    let mut i: usize = 0;
    while i < v.len()
        invariant
            i <= v@.len(),
            r@ == v@.subrange(0, i as int),
        decreases v@.len() - i,
    {
        r.push(v[i]);
        proof {
            assert(r@ =~= v@.subrange(0, i + 1));
        }
        i = i + 1;
    }
    proof {
        assert(r@ =~= v@);
    }
    r
}

fn copiar_estados(v: &Vec<MachineState>) -> (r: Vec<MachineState>)
    ensures
        mesmas_vistas(r@, v@),
{
    let mut r: Vec<MachineState> = Vec::new();
    let mut i: usize = 0;
    while i < v.len()
        invariant
            i <= v@.len(),
            r@.len() == i,
            forall|j: int|
                0 <= j < i ==> (#[trigger] r@[j]).id == v@[j].id && r@[j].tasks@ == v@[j].tasks@
                    && r@[j].makespan == v@[j].makespan,
        decreases v@.len() - i,
    {
        let fonte = &v[i];
        let tasks = copiar_tarefas(&fonte.tasks);
        r.push(MachineState { id: fonte.id, tasks, makespan: fonte.makespan });
        i = i + 1;
    }
    r
}

/// The replay state machine: a finished trace plus a cursor, a playback
/// mode, a speed, the clock reading of the last step, and the reconstructed
/// machine view for the cursor.  All clock readings come in from the caller
/// as milliseconds.
pub struct AnimationScreen {
    pub events: Vec<AnimationEvent>,
    pub current_step: usize,
    pub playback_state: PlaybackState,
    pub speed: PlaybackSpeed,
    pub last_step_ms: u64,
    pub machine_states: Vec<MachineState>,
    pub algorithm_name: String,
}

impl AnimationScreen {
    /// The cursor stays inside the trace (or at 0 for an empty trace).
    pub open spec fn wf(self) -> bool {
        self.current_step < self.events@.len() || (self.events@.len() == 0 && self.current_step
            == 0)
    }

    /// A fresh replay: cursor at step 0, paused, medium speed, showing the
    /// first snapshot found anywhere in the trace (or nothing).
    pub fn new(events: Vec<AnimationEvent>, algorithm_name: String) -> (r: AnimationScreen)
        ensures
            r.wf(),
            r.events@ == events@,
            r.current_step == 0,
            r.playback_state == PlaybackState::Paused,
            r.speed == PlaybackSpeed::Medium,
            r.last_step_ms == 0,
            r.algorithm_name == algorithm_name,
            mesmas_vistas(r.machine_states@, vista_inicial(events@)),
    {
        let mut machine_states: Vec<MachineState> = Vec::new();
        let mut i: usize = 0;
        let mut achou = false;
        while i < events.len() && !achou
            invariant
                i <= events@.len(),
                !achou ==> forall|j: int| 0 <= j < i ==> !eh_snapshot(#[trigger] events@[j]),
                !achou ==> machine_states@.len() == 0,
                achou ==> i < events@.len() && eh_snapshot(events@[i as int]) && (forall|j: int|
                    0 <= j < i ==> !eh_snapshot(#[trigger] events@[j])) && mesmas_vistas(
                    machine_states@,
                    maquinas_do_snapshot(events@[i as int]),
                ),
            decreases events@.len() - i + (if achou {
                0int
            } else {
                1int
            }),
        {
            match &events[i] {
                AnimationEvent::MachineSnapshot { machines } => {
                    machine_states = copiar_estados(machines);
                    achou = true;
                },
                _ => {
                    i = i + 1;
                },
            }
        }
        proof {
            if achou {
                lemma_achar_frente_calculado(events@, 0, i as int);
            } else {
                lemma_achar_frente_calculado(events@, 0, events@.len() as int);
            }
        }
        AnimationScreen {
            events,
            current_step: 0,
            playback_state: PlaybackState::Paused,
            speed: PlaybackSpeed::Medium,
            last_step_ms: 0,
            machine_states,
            algorithm_name,
        }
    }

    /// Rebuilds the machine view for the cursor: the nearest snapshot at or
    /// before it, or an empty view when none precedes it.
    fn update_machine_states(&mut self)
        requires
            old(self).wf(),
        ensures
            final(self).wf(),
            final(self).events == old(self).events,
            final(self).current_step == old(self).current_step,
            final(self).playback_state == old(self).playback_state,
            final(self).speed == old(self).speed,
            final(self).last_step_ms == old(self).last_step_ms,
            final(self).algorithm_name == old(self).algorithm_name,
            mesmas_vistas(
                final(self).machine_states@,
                vista_em(old(self).events@, old(self).current_step as int),
            ),
    {
        if self.events.len() == 0 {
            proof {
                lemma_achar_atras_vazio(self.events@, self.current_step as int);
            }
            self.machine_states = Vec::new();
            return;
        }
        let mut i: usize = self.current_step;
        loop
            invariant
                self.wf(),
                self.events == old(self).events,
                self.current_step == old(self).current_step,
                self.playback_state == old(self).playback_state,
                self.speed == old(self).speed,
                self.last_step_ms == old(self).last_step_ms,
                self.algorithm_name == old(self).algorithm_name,
                i <= self.current_step < self.events@.len(),
                forall|j: int| i < j <= self.current_step ==> !eh_snapshot(
                    #[trigger] self.events@[j],
                ),
            decreases i,
        {
            let mut copia: Option<Vec<MachineState>> = None;
            match &self.events[i] {
                AnimationEvent::MachineSnapshot { machines } => {
                    copia = Some(copiar_estados(machines));
                },
                _ => {},
            }
            match copia {
                Some(estados) => {
                    proof {
                        lemma_achar_atras_calculado(
                            self.events@,
                            self.current_step as int,
                            i as int,
                        );
                    }
                    self.machine_states = estados;
                    return;
                },
                None => {},
            }
            if i == 0 {
                proof {
                    lemma_achar_atras_calculado(self.events@, self.current_step as int, -1);
                }
                self.machine_states = Vec::new();
                return;
            }
            i = i - 1;
        }
    }

    /// Advances one step and reconstructs; at the last step (or on an empty
    /// trace) it stops playback instead.
    pub fn step_forward(&mut self, now_ms: u64)
        requires
            old(self).wf(),
        ensures
            final(self).wf(),
            final(self).events == old(self).events,
            final(self).speed == old(self).speed,
            final(self).algorithm_name == old(self).algorithm_name,
            old(self).current_step + 1 < old(self).events@.len() ==> final(self).current_step
                == old(self).current_step + 1,
            old(self).current_step + 1 < old(self).events@.len() ==> mesmas_vistas(
                final(self).machine_states@,
                vista_em(old(self).events@, old(self).current_step + 1),
            ),
            old(self).current_step + 1 < old(self).events@.len() ==> final(self).playback_state
                == old(self).playback_state && final(self).last_step_ms == now_ms,
            old(self).current_step + 1 >= old(self).events@.len() ==> final(self).playback_state
                == PlaybackState::Stopped && final(self).current_step == old(self).current_step
                && final(self).machine_states == old(self).machine_states && final(self).last_step_ms == old(self).last_step_ms,
    {
        let len = self.events.len();
        if len > 0 && self.current_step < len - 1 {
            self.current_step = self.current_step + 1;
            self.update_machine_states();
            self.last_step_ms = now_ms;
        } else {
            self.playback_state = PlaybackState::Stopped;
        }
    }

    /// Retreats one step and reconstructs; at step 0 it does nothing.
    pub fn step_backward(&mut self, now_ms: u64)
        requires
            old(self).wf(),
        ensures
            final(self).wf(),
            final(self).events == old(self).events,
            final(self).speed == old(self).speed,
            final(self).algorithm_name == old(self).algorithm_name,
            final(self).playback_state == old(self).playback_state,
            old(self).current_step > 0 ==> final(self).current_step == old(self).current_step - 1,
            old(self).current_step > 0 ==> mesmas_vistas(
                final(self).machine_states@,
                vista_em(old(self).events@, old(self).current_step - 1),
            ),
            old(self).current_step > 0 ==> final(self).last_step_ms == now_ms,
            old(self).current_step == 0 ==> *final(self) == *old(self),
    {
        if self.current_step > 0 {
            self.current_step = self.current_step - 1;
            self.update_machine_states();
            self.last_step_ms = now_ms;
        }
    }

    /// Playing and Paused toggle into each other; from Stopped the replay
    /// rewinds to step 0, reconstructs, and starts playing.
    pub fn toggle_playback(&mut self, now_ms: u64)
        requires
            old(self).wf(),
        ensures
            final(self).wf(),
            final(self).events == old(self).events,
            final(self).speed == old(self).speed,
            final(self).algorithm_name == old(self).algorithm_name,
            final(self).last_step_ms == now_ms,
            old(self).playback_state == PlaybackState::Playing ==> final(self).playback_state
                == PlaybackState::Paused && final(self).current_step == old(self).current_step
                && final(self).machine_states == old(self).machine_states,
            old(self).playback_state == PlaybackState::Paused ==> final(self).playback_state
                == PlaybackState::Playing && final(self).current_step == old(self).current_step
                && final(self).machine_states == old(self).machine_states,
            old(self).playback_state == PlaybackState::Stopped ==> final(self).playback_state
                == PlaybackState::Playing && final(self).current_step == 0 && mesmas_vistas(
                final(self).machine_states@,
                vista_em(old(self).events@, 0),
            ),
    {
        match self.playback_state {
            PlaybackState::Playing => {
                self.playback_state = PlaybackState::Paused;
            },
            PlaybackState::Paused => {
                self.playback_state = PlaybackState::Playing;
            },
            PlaybackState::Stopped => {
                self.current_step = 0;
                self.update_machine_states();
                self.playback_state = PlaybackState::Playing;
            },
        }
        self.last_step_ms = now_ms;
    }

    /// Back to step 0, paused, with the view reconstructed.
    pub fn restart(&mut self, now_ms: u64)
        requires
            old(self).wf(),
        ensures
            final(self).wf(),
            final(self).events == old(self).events,
            final(self).speed == old(self).speed,
            final(self).algorithm_name == old(self).algorithm_name,
            final(self).current_step == 0,
            final(self).playback_state == PlaybackState::Paused,
            final(self).last_step_ms == now_ms,
            mesmas_vistas(final(self).machine_states@, vista_em(old(self).events@, 0)),
    {
        self.current_step = 0;
        self.playback_state = PlaybackState::Paused;
        self.update_machine_states();
        self.last_step_ms = now_ms;
    }

    pub fn increase_speed(&mut self)
        ensures
            final(self).speed == old(self).speed.proxima(),
            final(self).events == old(self).events,
            final(self).current_step == old(self).current_step,
            final(self).playback_state == old(self).playback_state,
            final(self).machine_states == old(self).machine_states,
            final(self).last_step_ms == old(self).last_step_ms,
            final(self).algorithm_name == old(self).algorithm_name,
    {
        self.speed = self.speed.next();
    }

    pub fn decrease_speed(&mut self)
        ensures
            final(self).speed == old(self).speed.anterior(),
            final(self).events == old(self).events,
            final(self).current_step == old(self).current_step,
            final(self).playback_state == old(self).playback_state,
            final(self).machine_states == old(self).machine_states,
            final(self).last_step_ms == old(self).last_step_ms,
            final(self).algorithm_name == old(self).algorithm_name,
    {
        self.speed = self.speed.prev();
    }

    /// Clock tick: while playing, once a full speed period has elapsed since
    /// the last step, advances one step.  Returns whether it stepped.
    pub fn update(&mut self, now_ms: u64) -> (avancou: bool)
        requires
            old(self).wf(),
        ensures
            final(self).wf(),
            final(self).events == old(self).events,
            final(self).speed == old(self).speed,
            final(self).algorithm_name == old(self).algorithm_name,
            avancou == (old(self).playback_state == PlaybackState::Playing && now_ms >= old(self).last_step_ms + old(self).speed.duracao_ms()),
            !avancou ==> *final(self) == *old(self),
            avancou && old(self).current_step + 1 < old(self).events@.len() ==> final(self).current_step == old(self).current_step + 1 && mesmas_vistas(
                final(self).machine_states@,
                vista_em(old(self).events@, old(self).current_step + 1),
            ) && final(self).playback_state == PlaybackState::Playing && final(self).last_step_ms
                == now_ms,
            avancou && old(self).current_step + 1 >= old(self).events@.len() ==> final(self).playback_state == PlaybackState::Stopped && final(self).current_step == old(self).current_step && final(self).machine_states == old(self).machine_states,
    {
        if self.playback_state == PlaybackState::Playing {
            let periodo = self.speed.duration();
            if now_ms >= self.last_step_ms && now_ms - self.last_step_ms >= periodo {
                self.step_forward(now_ms);
                return true;
            }
        }
        false
    }

    /// The event under the cursor, if the trace is not empty.
    pub fn current_event(&self) -> (r: Option<&AnimationEvent>)
        ensures
            self.current_step < self.events@.len() ==> (r matches Some(e) && *e
                == self.events@[self.current_step as int]),
            self.current_step >= self.events@.len() ==> r is None,
    {
        if self.current_step < self.events.len() {
            Some(&self.events[self.current_step])
        } else {
            None
        }
    }
}

} // verus!
