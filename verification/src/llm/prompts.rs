//! The system prompt of the root-cause scenario: the engine-specific
//! header, the analysis method, the tables of the query, the rule findings,
//! the session variables already set and the parameters that may be
//! recommended. Also the classification of scanned tables and connectors.

use vstd::prelude::*;
use vstd::string::*;
use crate::audit::ClusterType;
use crate::llm::merger::DiagnosticForLLM;
use crate::text::{
    ascii_lower, chars_of, contains, contains_str, eq_ignore_ascii_case, join, join_strings,
    lemma_text_lt_asymmetric, lemma_text_lt_irreflexive, lemma_text_lt_total,
    lemma_text_lt_transitive, nat_dec, split, split_exec, starts_with, starts_with_exec, str_eq,
    str_lt, string_of, text_lt, texts, to_lowercase, u64_dec, unicode_lower,
};

verus! {

// ---------------------------------------------------------------------------
// Fixed texts
// ---------------------------------------------------------------------------

/// The analysis method shared by both engines.
pub const ANALYSIS_METHODOLOGY: &'static str = r#"
## 🧠 批判性思维要求 (Critical Thinking)

在给出任何诊断或建议前，你必须进行**自我批评式思考**：

1. **质疑假设**: 我的诊断是否基于充分的证据？是否有其他可能的解释？
2. **验证参数**: 我推荐的参数是否真实存在于官方文档中？如果不确定，宁可不推荐。
3. **检查适用性**: 这个建议是否适用于当前的表类型（内表/外表）？
4. **避免臆断**: 我是否在没有数据支撑的情况下做出了推测？
5. **反思偏见**: 我是否过度依赖某些常见模式而忽略了具体情况？

**重要原则**: 宁可少给建议，也不要给出错误或不存在的参数建议！

## 分析方法论 (Chain-of-Thought)

### Step 1: 理解查询意图
- 这是什么类型的查询？(OLAP聚合/点查/ETL导入/Join密集型)
- 涉及哪些表？各表的数据量级？
- 自问: 我是否完整理解了查询的业务场景？

### Step 2: 识别性能瓶颈
- 哪个算子耗时最长？(time_pct > 30%)
- 是 IO 瓶颈还是 CPU 瓶颈？
- 是否有数据倾斜？(max/avg 比值)
- 自问: 我的判断是否有 Profile 指标支撑？

### Step 3: 根因溯源
- 瓶颈算子的上游是什么？
- 根因是数据问题还是配置问题？
- 是否有规则引擎未发现的隐式根因？
- 自问: 我是否混淆了症状和根因？

### Step 4: 制定优化方案
- 针对根因而非症状给出建议
- 优先给出投入产出比最高的优化
- 必须是可直接执行的命令
- 自问: 这个建议在用户环境中是否可行？

### Step 5: 自我验证 (必做)
- **参数存在性**: 我推荐的每个参数是否在下方的"官方支持参数列表"中？
- **表类型匹配**: 对外表建议 ALTER TABLE 分桶是错误的！
- **配置冲突**: 是否与当前 session_variables 中的值重复？
- **命令完整性**: SQL/SET 命令是否可以直接复制执行？
"#;

/// The opening of the StarRocks prompt.
pub const HEADER_STARROCKS: &'static str = "你是一位拥有20年以上的 StarRocks OLAP 数据库的高级性能专家。\n\
             你需要分析 Query Profile 数据，识别真正的根因并给出**可直接执行**的优化建议。";

/// The opening of the Doris prompt.
pub const HEADER_DORIS: &'static str = "你是一位拥有20年以上的 Apache Doris OLAP 数据库的高级性能专家。\n\
             你需要分析 Query Profile 数据，识别真正的根因并给出**可直接执行**的优化建议。\n\n\
             ## Doris 核心特性\n\n\
             Apache Doris 是一款高性能的实时分析数据库，具有以下核心特性：\n\
             - **MPP 架构**: 大规模并行处理，支持 PB 级数据分析\n\
             - **向量化执行引擎**: 基于列式存储的向量化计算\n\
             - **Pipeline 执行引擎**: 异步执行，充分利用多核 CPU\n\
             - **智能物化视图**: 自动查询改写，透明加速\n\
             - **多 Catalog 支持**: 统一访问 Hive/Iceberg/Hudi/Paimon 等外部数据源";

/// The strict rules, up to the engine name.
pub const STRICT_RULES_HEAD: &'static str = r#"
## ⚠️ 严格遵守的规则
1. **检查 session_variables 再给建议**: 参数已启用就不要重复建议
2. **区分表类型**: 内表和外表的优化方向完全不同
3. **参数必须存在**: 只使用下方列出的 "#;

/// The strict rules, after the engine name.
pub const STRICT_RULES_TAIL: &'static str = r#" 官方参数，禁止创造参数！
4. **建议必须可执行**: 给出完整的 SQL/SET/ALTER 命令
5. **宁缺毋滥**: 不确定的建议宁可不给，也不要误导用户"#;

/// The parameters StarRocks supports.
pub const VALID_PARAMS_STARROCKS: &'static str = r#"

## ✅ StarRocks 官方支持的参数 (已验证)

### Session 变量 (SET xxx = yyy)

**查询资源控制:**
- `query_mem_limit` - 单个查询内存限制 (bytes)
- `query_timeout` - 查询超时时间 (秒，默认300)
- `exec_mem_limit` - 单个 BE 节点内存限制

**并行度控制:**
- `pipeline_dop` - Pipeline 并行度 (0=自动)
- `parallel_fragment_exec_instance_num` - Fragment 实例数 (默认1)
- `max_parallel_scan_instance_num` - Scan 并行实例数

**Spill (落盘):**
- `enable_spill` - 启用落盘 (true/false)
- `spill_mem_table_size` - 落盘触发阈值
- `spill_mem_table_num` - 落盘表数量

**DataCache (仅外表):**
- `enable_scan_datacache` - 启用 DataCache 读取 (外表专用)
- `enable_populate_datacache` - 启用 DataCache 写入 (外表专用)

**Query Cache (仅内表):**
- `enable_query_cache` - 启用 Query Cache (仅内表聚合查询)
- `query_cache_entry_max_bytes` - 单个缓存条目最大字节
- `query_cache_entry_max_rows` - 单个缓存条目最大行数

**Runtime Filter:**
- `enable_global_runtime_filter` - 全局 Runtime Filter
- `runtime_filter_wait_time_ms` - 等待时间
- `runtime_join_filter_push_down_limit` - 下推行数限制

**Join 优化:**
- `broadcast_row_limit` - Broadcast 行数限制 (默认25M)
- `hash_join_push_down_right_table` - 右表下推

**聚合优化:**
- `new_planner_agg_stage` - 聚合阶段 (0=自动,1/2/3/4)
- `streaming_preaggregation_mode` - 预聚合模式

### ALTER TABLE 属性 (仅内表)
- `replication_num` - 副本数
- `bloom_filter_columns` - Bloom Filter 列
- `colocate_with` - Colocate Group 名称
- `dynamic_partition.enable` - 动态分区开关
- `storage_medium` - 存储介质 (SSD/HDD)

### 运维命令
- `ANALYZE TABLE db.table;` - 更新统计信息 (仅内表)
- `REFRESH MATERIALIZED VIEW mv_name;` - 刷新物化视图
- `ADMIN SET REPLICA STATUS ...` - 管理副本

### SQL Hint 格式
```sql
SELECT /*+ SET_VAR(query_timeout=600, enable_spill=true) */ ...
```

## ❌ 禁止使用的参数
- ❌ `enable_short_key_index` - 不存在
- ❌ `enable_zone_map_index` - 不存在
- ❌ `enable_bitmap_index` - 不存在
- ❌ `enable_async_profile` - 不存在
- ❌ `optimize_table` - 不存在

## ⚠️ 外表限制
- ❌ `ALTER TABLE external_table SET (...)` - 外表属性在源端修改
- ❌ `ANALYZE TABLE external_catalog.db.table` - 外表统计信息在源端
- ❌ `enable_query_cache = true` - Query Cache 不支持外表

## 🔄 缓存策略
| 缓存类型 | 适用表类型 | 参数 |
|---------|-----------|------|
| Query Cache | 内表 | `enable_query_cache` |
| DataCache | 外表 | `enable_scan_datacache` |
| PageCache | 内表 | 自动 |
"#;

/// The parameters Doris supports.
pub const VALID_PARAMS_DORIS: &'static str = r#"

## ✅ Doris 官方支持的参数 (已验证)

### Session 变量 (SET xxx = yyy)

**查询资源控制:**
- `exec_mem_limit` - 单个查询内存限制 (bytes，默认2GB)
- `query_timeout` - 查询超时时间 (秒，默认900)
- `insert_timeout` - 导入超时时间 (秒，默认14400)

**并行度控制:**
- `parallel_fragment_exec_instance_num` - Fragment 实例数 (默认1)
- `parallel_pipeline_task_num` - Pipeline 任务并行度 (0=自动)
- `max_instance_num` - 最大实例数

**Pipeline 执行引擎:**
- `enable_pipeline_engine` - 启用 Pipeline 引擎 (默认true)
- `enable_pipeline_x_engine` - 启用 PipelineX 引擎 (2.1+)
- `enable_local_shuffle` - 启用本地 Shuffle

**Spill (落盘):**
- `enable_spill` - 启用落盘 (true/false)
- `min_revocable_mem` - 最小可回收内存

**文件缓存 (外表专用):**
- `enable_file_cache` - 启用文件缓存 (外表专用)

**Runtime Filter:**
- `runtime_filter_mode` - Runtime Filter 模式 (OFF/LOCAL/GLOBAL)
- `runtime_filter_type` - Runtime Filter 类型 (IN/BLOOM/MIN_MAX)
- `runtime_filter_wait_time_ms` - 等待时间 (默认1000ms)
- `runtime_bloom_filter_max_size` - Bloom Filter 最大大小

**Join 优化:**
- `broadcast_row_count_limit` - Broadcast 行数限制 (默认1048576)
- `enable_bucket_shuffle_join` - 启用 Bucket Shuffle Join
- `enable_colocate_join` - 启用 Colocate Join

**聚合优化:**
- `enable_distinct_streaming_aggregation` - 启用流式聚合
- `streaming_preaggregation_mode` - 预聚合模式

**向量化执行:**
- `enable_vectorized_engine` - 启用向量化引擎 (默认true)
- `batch_size` - 向量化批次大小 (默认4096)

### ALTER TABLE 属性 (仅内表)
- `replication_num` - 副本数
- `bloom_filter_columns` - Bloom Filter 列
- `colocate_with` - Colocate Group 名称
- `dynamic_partition.enable` - 动态分区开关
- `storage_medium` - 存储介质 (SSD/HDD)
- `compaction_policy` - Compaction 策略

### 运维命令
- `ANALYZE TABLE db.table;` - 更新统计信息 (仅内表)
- `REFRESH MATERIALIZED VIEW mv_name;` - 刷新物化视图
- `ADMIN COMPACT TABLE db.table;` - 手动触发 Compaction

### SQL Hint 格式
```sql
SELECT /*+ SET_VAR(exec_mem_limit=8589934592, query_timeout=600) */ ...
```

## ❌ 禁止使用的参数
- ❌ `enable_scan_datacache` - StarRocks 参数，Doris 用 `enable_file_cache`
- ❌ `enable_populate_datacache` - StarRocks 参数
- ❌ `pipeline_dop` - StarRocks 参数，Doris 用 `parallel_pipeline_task_num`
- ❌ `enable_query_cache` - Doris 2.0+ 使用 SQL Cache

## ⚠️ 外表限制 (Multi-Catalog)
- ❌ `ALTER TABLE external_table SET (...)` - 外表属性在源端修改
- ❌ `ANALYZE TABLE catalog.db.table` - 外表统计信息在源端

## 🔄 缓存策略
| 缓存类型 | 适用表类型 | 参数 |
|---------|-----------|------|
| SQL Cache | 内表 | 自动 (2.0+) |
| File Cache | 外表 | `enable_file_cache` |
| PageCache | 内表 | 自动 |
"#;

/// The heading of the output format.
pub const OUTPUT_FORMAT: &'static str = r#"

## 📤 严格 JSON 输出格式"#;

/// The JSON shape the answer must have.
pub const JSON_FORMAT: &'static str = r#"

```json
{
  "root_causes": [
    {
      "root_cause_id": "RC001",
      "description": "root cause description based on raw metrics analysis",
      "confidence": 0.85,
      "evidence": ["Profile metric evidence 1", "evidence 2"],
      "symptoms": ["S001", "G003"],
      "is_implicit": false
    }
  ],
  "causal_chains": [
    {
      "chain": ["Root Cause", "->", "Intermediate", "->", "Symptom"],
      "explanation": "Causal analysis based on Profile data"
    }
  ],
  "recommendations": [
    {
      "priority": 1,
      "action": "Brief description of recommended action",
      "expected_improvement": "Quantitative improvement description",
      "sql_example": "Executable SQL or command"
    }
  ],
  "summary": "Overall analysis summary focusing on root causes and optimization direction",
  "hidden_issues": [
    {
      "issue": "Issue not detected by rule engine",
      "suggestion": "Executable solution command"
    }
  ]
}
```

Field descriptions:
- root_cause_id: Format as "RC001", "RC002", etc.
- evidence: MUST reference specific Profile metric values
- symptoms: Related rule IDs
- is_implicit: true if not detected by rule engine
- priority: 1 is highest priority
- sql_example: REQUIRED, executable SQL/command
"#;

/// The rules closing the session-variable section.
pub const SESSION_VARS_RULES: &'static str = r#"
### 🚫 严格规则
1. **禁止建议** `SET enable_xxx = true` 如果该参数在"已启用的功能"列表中
2. 只能建议开启"已禁用的功能"列表中的参数
3. 违反以上规则将被视为严重错误!
"#;

// ---------------------------------------------------------------------------
// Base prompt
// ---------------------------------------------------------------------------

/// The engine name shown in prompts.
pub open spec fn display_name(t: ClusterType) -> Seq<char> {
    match t {
        ClusterType::StarRocks => "StarRocks"@,
        ClusterType::Doris => "Doris"@,
    }
}

/// The engine name shown in prompts.
pub fn cluster_display_name(t: ClusterType) -> (r: &'static str)
    ensures
        r@ == display_name(t),
{
    match t {
        ClusterType::StarRocks => "StarRocks",
        ClusterType::Doris => "Doris",
    }
}

/// The opening of the prompt for an engine.
pub open spec fn header_text(t: ClusterType) -> Seq<char> {
    match t {
        ClusterType::StarRocks => HEADER_STARROCKS@,
        ClusterType::Doris => HEADER_DORIS@,
    }
}

/// The opening of the prompt for an engine.
pub fn build_base_prompt_header(cluster_type: ClusterType) -> (r: &'static str)
    ensures
        r@ == header_text(cluster_type),
{
    match cluster_type {
        ClusterType::StarRocks => HEADER_STARROCKS,
        ClusterType::Doris => HEADER_DORIS,
    }
}

/// The strict rules naming the engine whose parameters may be used.
pub open spec fn strict_rules_text(db_name: Seq<char>) -> Seq<char> {
    STRICT_RULES_HEAD@ + db_name + STRICT_RULES_TAIL@
}

/// The strict rules naming the engine whose parameters may be used.
pub fn build_strict_rules_prompt(db_name: &str) -> (r: String)
    ensures
        r@ == strict_rules_text(db_name@),
{
    let mut r = String::from_str(STRICT_RULES_HEAD);
    r.append(db_name);
    r.append(STRICT_RULES_TAIL);
    r
}

/// Header, analysis method and strict rules, separated by line breaks.
pub open spec fn base_prompt_text(t: ClusterType) -> Seq<char> {
    header_text(t) + "\n"@ + ANALYSIS_METHODOLOGY@ + "\n"@ + strict_rules_text(display_name(t))
}

/// Header, analysis method and strict rules, separated by line breaks.
pub fn build_base_prompt(cluster_type: ClusterType) -> (r: String)
    ensures
        r@ == base_prompt_text(cluster_type),
{
    let mut r = String::from_str(build_base_prompt_header(cluster_type));
    r.append("\n");
    r.append(ANALYSIS_METHODOLOGY);
    r.append("\n");
    let rules = build_strict_rules_prompt(cluster_display_name(cluster_type));
    r.append(rules.as_str());
    r
}

/// The parameter list of an engine.
pub open spec fn valid_params_text(t: ClusterType) -> Seq<char> {
    match t {
        ClusterType::StarRocks => VALID_PARAMS_STARROCKS@,
        ClusterType::Doris => VALID_PARAMS_DORIS@,
    }
}

/// The parameter list of an engine.
pub fn get_valid_params_prompt(cluster_type: ClusterType) -> (r: &'static str)
    ensures
        r@ == valid_params_text(cluster_type),
{
    match cluster_type {
        ClusterType::StarRocks => VALID_PARAMS_STARROCKS,
        ClusterType::Doris => VALID_PARAMS_DORIS,
    }
}

// ---------------------------------------------------------------------------
// Table and connector hints
// ---------------------------------------------------------------------------

/// Optimisation hints for one kind of external table.
pub struct ConnectorHints {
    pub name: String,
    pub cache_cmd: &'static str,
    pub hints: Vec<&'static str>,
}

/// The texts of a list of fixed strings.
pub open spec fn lits(v: Seq<&'static str>) -> Seq<Seq<char>> {
    v.map_values(|h: &'static str| h@)
}

impl ConnectorHints {
    pub fn new(name: &str, cache_cmd: &'static str, hints: &[&'static str]) -> (r: Self)
        ensures
            r.name@ == name@,
            r.cache_cmd == cache_cmd,
            r.hints@ == hints@,
    {
        let mut v: Vec<&'static str> = Vec::new();
        let mut i: usize = 0;
        while i < hints.len()
            invariant
                i <= hints.len(),
                v@ == hints@.take(i as int),
            decreases hints.len() - i,
        {
            v.push(hints[i]);
            assert(hints@.take(i as int).push(hints@[i as int]) =~= hints@.take(i + 1));
            i += 1;
        }
        assert(hints@.take(hints.len() as int) =~= hints@);
        ConnectorHints { name: String::from_str(name), cache_cmd, hints: v }
    }
}

/// The cache switch of an engine's external tables.
pub open spec fn cache_cmd_text(t: ClusterType) -> Seq<char> {
    match t {
        ClusterType::StarRocks => "SET enable_scan_datacache=true;"@,
        ClusterType::Doris => "SET enable_file_cache=true;"@,
    }
}

/// Display name, cache switch and hints of a connector (an unknown connector
/// keeps its own name and gets the generic hints).
pub open spec fn connector_hints_spec(c: Seq<char>, t: ClusterType) -> (
    Seq<char>,
    Seq<char>,
    Seq<Seq<char>>,
) {
    if c == "hive"@ {
        (
            "Hive"@,
            cache_cmd_text(t),
            seq![
                "分区裁剪: 确保 WHERE 条件包含分区列"@,
                "小文件合并: 在 Hive/Spark 端执行合并"@,
                "⚠️ 外表不支持 ALTER TABLE 修改分桶"@,
            ],
        )
    } else if c == "iceberg"@ {
        (
            "Iceberg"@,
            cache_cmd_text(t),
            seq![
                "利用 Iceberg 的 hidden partitioning"@,
                "检查 delete files 是否过多 (V2 格式)"@,
                "使用 Time Travel 查询历史数据"@,
                "小文件合并: 在 Spark 端定期执行 rewrite_data_files"@,
                "⚠️ 外表不能用 ALTER TABLE 改分桶"@,
            ],
        )
    } else if c == "hudi"@ {
        (
            "Hudi"@,
            cache_cmd_text(t),
            seq!["检查 compaction 是否及时"@, "MOR 表考虑调整读取模式"@, "使用增量查询优化性能"@],
        )
    } else if c == "paimon"@ {
        ("Paimon"@, cache_cmd_text(t), seq!["利用 Paimon 的主键表特性"@, "检查 snapshot 数量"@])
    } else if c == "jdbc"@ {
        (
            "JDBC"@,
            ""@,
            seq![
                "谓词下推: 确保 WHERE 条件能下推到源库"@,
                "减少 SELECT 列: 只查询必要的列"@,
                "考虑数据同步到内表加速"@,
            ],
        )
    } else if c == "es"@ || c == "elasticsearch"@ {
        (
            "Elasticsearch"@,
            ""@,
            seq!["确保查询条件能下推到 ES"@, "利用 ES 的索引能力"@, "减少返回字段数"@],
        )
    } else {
        (c, cache_cmd_text(t), seq!["分区裁剪"@, "谓词下推"@])
    }
}

/// The hints of a connector for an engine.
pub fn get_connector_hints(connector: &str, cluster_type: ClusterType) -> (r: ConnectorHints)
    ensures
        (r.name@, r.cache_cmd@, lits(r.hints@)) == connector_hints_spec(connector@, cluster_type),
{
    let cache_cmd: &'static str = match cluster_type {
        ClusterType::StarRocks => "SET enable_scan_datacache=true;",
        ClusterType::Doris => "SET enable_file_cache=true;",
    };
    let r = if str_eq(connector, "hive") {
        ConnectorHints::new(
            "Hive",
            cache_cmd,
            &["分区裁剪: 确保 WHERE 条件包含分区列", "小文件合并: 在 Hive/Spark 端执行合并", "⚠️ 外表不支持 ALTER TABLE 修改分桶"],
        )
    } else if str_eq(connector, "iceberg") {
        ConnectorHints::new(
            "Iceberg",
            cache_cmd,
            &[
                "利用 Iceberg 的 hidden partitioning",
                "检查 delete files 是否过多 (V2 格式)",
                "使用 Time Travel 查询历史数据",
                "小文件合并: 在 Spark 端定期执行 rewrite_data_files",
                "⚠️ 外表不能用 ALTER TABLE 改分桶",
            ],
        )
    } else if str_eq(connector, "hudi") {
        ConnectorHints::new(
            "Hudi",
            cache_cmd,
            &["检查 compaction 是否及时", "MOR 表考虑调整读取模式", "使用增量查询优化性能"],
        )
    } else if str_eq(connector, "paimon") {
        ConnectorHints::new("Paimon", cache_cmd, &["利用 Paimon 的主键表特性", "检查 snapshot 数量"])
    } else if str_eq(connector, "jdbc") {
        ConnectorHints::new(
            "JDBC",
            "",
            &["谓词下推: 确保 WHERE 条件能下推到源库", "减少 SELECT 列: 只查询必要的列", "考虑数据同步到内表加速"],
        )
    } else if str_eq(connector, "es") || str_eq(connector, "elasticsearch") {
        ConnectorHints::new(
            "Elasticsearch",
            "",
            &["确保查询条件能下推到 ES", "利用 ES 的索引能力", "减少返回字段数"],
        )
    } else {
        ConnectorHints::new(connector, cache_cmd, &["分区裁剪", "谓词下推"])
    };
    assert(lits(r.hints@) =~= connector_hints_spec(connector@, cluster_type).2);
    r
}

/// The hints for an engine's own tables.
pub open spec fn internal_hints_spec(t: ClusterType) -> Seq<Seq<char>> {
    match t {
        ClusterType::StarRocks => seq![
            "ANALYZE TABLE 更新统计信息"@,
            "检查分桶键是否合理"@,
            "考虑物化视图加速"@,
            "可使用 ALTER TABLE 调整属性"@,
        ],
        ClusterType::Doris => seq![
            "ANALYZE TABLE 更新统计信息"@,
            "检查分桶键是否合理 (DISTRIBUTED BY HASH)"@,
            "考虑同步物化视图或异步物化视图加速"@,
            "可使用 ALTER TABLE 调整属性"@,
            "检查 Compaction 是否及时"@,
        ],
    }
}

/// The hints for an engine's own tables.
pub fn get_internal_table_hints(cluster_type: ClusterType) -> (r: &'static [&'static str])
    ensures
        lits(r@) == internal_hints_spec(cluster_type),
{
    let r: &'static [&'static str] = match cluster_type {
        ClusterType::StarRocks => &[
            "ANALYZE TABLE 更新统计信息",
            "检查分桶键是否合理",
            "考虑物化视图加速",
            "可使用 ALTER TABLE 调整属性",
        ],
        ClusterType::Doris => &[
            "ANALYZE TABLE 更新统计信息",
            "检查分桶键是否合理 (DISTRIBUTED BY HASH)",
            "考虑同步物化视图或异步物化视图加速",
            "可使用 ALTER TABLE 调整属性",
            "检查 Compaction 是否及时",
        ],
    };
    assert(lits(r@) =~= internal_hints_spec(cluster_type));
    r
}

// ---------------------------------------------------------------------------
// Table and connector classification
// ---------------------------------------------------------------------------

/// A table name is external when it has a catalog part (three or more
/// dot-separated parts) other than `default_catalog` (in any ASCII case).
pub open spec fn table_type_of(name: Seq<char>) -> Seq<char> {
    let parts = split(name, '.');
    if parts.len() >= 3 && ascii_lower(parts[0]) != ascii_lower("default_catalog"@) {
        "external"@
    } else {
        "internal"@
    }
}

/// `internal` or `external` by the catalog prefix of a table name.
pub fn determine_table_type(table_name: &str) -> (r: String)
    ensures
        r@ == table_type_of(table_name@),
{
    let v = chars_of(table_name);
    let parts = split_exec(v.as_slice(), '.');
    if parts.len() >= 3 {
        let dc = chars_of("default_catalog");
        if eq_ignore_ascii_case(parts[0].as_slice(), dc.as_slice()) {
            String::from_str("internal")
        } else {
            String::from_str("external")
        }
    } else {
        String::from_str("internal")
    }
}

/// Some metric name, lower-cased, contains `p`.
pub open spec fn metric_has(names: Seq<Seq<char>>, p: Seq<char>) -> bool {
    exists|i: int| 0 <= i < names.len() && #[trigger] contains(unicode_lower(names[i]), p)
}

/// The connector suggested by the metric names of a scan, checked in a
/// fixed order of name fragments.
pub open spec fn connector_of(names: Seq<Seq<char>>) -> Seq<char> {
    if metric_has(names, "iceberg"@) || metric_has(names, "deletefilebuild"@) {
        "iceberg"@
    } else if metric_has(names, "deletionvector"@) {
        "deltalake"@
    } else if metric_has(names, "hudi"@) {
        "hudi"@
    } else if metric_has(names, "paimon"@) {
        "paimon"@
    } else if metric_has(names, "jdbc"@) {
        "jdbc"@
    } else if metric_has(names, "elasticsearch"@) || metric_has(names, "_es_"@) {
        "es"@
    } else if metric_has(names, "orc"@) || metric_has(names, "parquet"@) || metric_has(
        names,
        "stripe"@,
    ) || metric_has(names, "rowgroup"@) {
        "hive"@
    } else {
        "unknown"@
    }
}

/// The metric names of a list of metric entries.
pub open spec fn metric_names(metrics: Seq<(String, String)>) -> Seq<Seq<char>> {
    metrics.map_values(|m: (String, String)| m.0@)
}

fn any_contains(lowered: &Vec<Vec<char>>, p: &str) -> (r: bool)
    ensures
        r == exists|i: int| 0 <= i < lowered@.len() && #[trigger] contains(lowered@[i]@, p@),
{
    let mut i: usize = 0;
    while i < lowered.len()
        invariant
            i <= lowered.len(),
            forall|t: int| 0 <= t < i ==> !contains(#[trigger] lowered@[t]@, p@),
        decreases lowered.len() - i,
    {
        if contains_str(lowered[i].as_slice(), p) {
            return true;
        }
        i += 1;
    }
    false
}

/// The connector of an external scan, from the names of its metrics (the
/// metric values are not read).
pub fn determine_connector_type(metrics: &[(String, String)]) -> (r: String)
    ensures
        r@ == connector_of(metric_names(metrics@)),
{
    let ghost names = metric_names(metrics@);
    let mut lowered: Vec<Vec<char>> = Vec::new();
    let mut i: usize = 0;
    while i < metrics.len()
        invariant
            i <= metrics.len(),
            names == metric_names(metrics@),
            lowered@.len() == i,
            forall|t: int| 0 <= t < i ==> #[trigger] lowered@[t]@ == unicode_lower(names[t]),
        decreases metrics.len() - i,
    {
        let l = to_lowercase(metrics[i].0.as_str());
        lowered.push(chars_of(l.as_str()));
        i += 1;
    }
    proof {
        assert forall|p: Seq<char>|
            (exists|t: int| 0 <= t < lowered@.len() && #[trigger] contains(lowered@[t]@, p))
                == metric_has(names, p) by {
            if exists|t: int| 0 <= t < lowered@.len() && #[trigger] contains(lowered@[t]@, p) {
                let t = choose|t: int| 0 <= t < lowered@.len() && #[trigger] contains(lowered@[t]@, p);
                assert(contains(unicode_lower(names[t]), p));
            }
            if metric_has(names, p) {
                let t = choose|t: int| 0 <= t < names.len() && #[trigger] contains(unicode_lower(names[t]), p);
                assert(contains(lowered@[t]@, p));
            }
        }
    }
    let r = if any_contains(&lowered, "iceberg") || any_contains(&lowered, "deletefilebuild") {
        "iceberg"
    } else if any_contains(&lowered, "deletionvector") {
        "deltalake"
    } else if any_contains(&lowered, "hudi") {
        "hudi"
    } else if any_contains(&lowered, "paimon") {
        "paimon"
    } else if any_contains(&lowered, "jdbc") {
        "jdbc"
    } else if any_contains(&lowered, "elasticsearch") || any_contains(&lowered, "_es_") {
        "es"
    } else if any_contains(&lowered, "orc") || any_contains(&lowered, "parquet") || any_contains(
        &lowered,
        "stripe",
    ) || any_contains(&lowered, "rowgroup") {
        "hive"
    } else {
        "unknown"
    };
    String::from_str(r)
}

// ---------------------------------------------------------------------------
// Rule findings
// ---------------------------------------------------------------------------

/// The section shown when the rules found nothing.
pub const NO_ISSUES_TEXT: &'static str = "\n\n## 规则引擎未发现明显问题\n请深入分析原始 Profile 数据，寻找隐式性能问题。\n";

/// The heading of the rule findings.
pub const ISSUES_HEAD: &'static str = "\n\n## 规则引擎已识别的问题 (仅作为参考)\n";

/// The task stated after the rule findings.
pub const ISSUES_TASK: &'static str = "\n**你的任务**: 不要简单重复这些问题，而是:\n1. 分析这些症状背后的根因\n2. 找出规则引擎未发现的隐式问题\n3. 建立因果链条\n";

/// One finding as a list line.
pub open spec fn issue_line(d: DiagnosticForLLM) -> Seq<char> {
    "- **"@ + d.rule_id@ + "** ["@ + d.severity@ + "]: "@ + d.message@ + "\n"@
}

/// The list lines of findings, in order.
pub open spec fn issue_lines(ds: Seq<DiagnosticForLLM>) -> Seq<char>
    decreases ds.len(),
{
    if ds.len() == 0 {
        Seq::empty()
    } else {
        issue_lines(ds.drop_last()) + issue_line(ds.last())
    }
}

/// At most the first five findings are listed.
pub open spec fn issue_focused_text(ds: Seq<DiagnosticForLLM>) -> Seq<char> {
    if ds.len() == 0 {
        NO_ISSUES_TEXT@
    } else {
        ISSUES_HEAD@ + issue_lines(if ds.len() <= 5 { ds } else { ds.take(5) }) + ISSUES_TASK@
    }
}

/// The section on what the rules found.
pub fn build_issue_focused_prompt(diagnostics: &[DiagnosticForLLM]) -> (r: String)
    ensures
        r@ == issue_focused_text(diagnostics@),
{
    if diagnostics.len() == 0 {
        return String::from_str(NO_ISSUES_TEXT);
    }
    let n: usize = if diagnostics.len() <= 5 { diagnostics.len() } else { 5 };
    let ghost shown = if diagnostics@.len() <= 5 { diagnostics@ } else { diagnostics@.take(5) };
    assert(shown =~= diagnostics@.take(n as int));
    let mut r = String::from_str(ISSUES_HEAD);
    let mut i: usize = 0;
    while i < n
        invariant
            n <= diagnostics.len(),
            i <= n,
            r@ == ISSUES_HEAD@ + issue_lines(diagnostics@.take(i as int)),
        decreases n - i,
    {
        let d = &diagnostics[i];
        assert(diagnostics@.take(i + 1).drop_last() =~= diagnostics@.take(i as int));
        assert(diagnostics@.take(i + 1).last() == *d);
        r.append("- **");
        r.append(d.rule_id.as_str());
        r.append("** [");
        r.append(d.severity.as_str());
        r.append("]: ");
        r.append(d.message.as_str());
        r.append("\n");
        i += 1;
    }
    r.append(ISSUES_TASK);
    r
}

// ---------------------------------------------------------------------------
// Session variables
// ---------------------------------------------------------------------------

/// A setting: variable name and value.
pub type Setting = (Seq<char>, Seq<char>);

/// The texts of name/value string pairs.
pub open spec fn pair_texts(v: Seq<(String, String)>) -> Seq<Setting> {
    v.map_values(|p: (String, String)| (p.0@, p.1@))
}

/// `x` inserted after every setting whose name is not after its own.
pub open spec fn insert_by_key(s: Seq<Setting>, x: Setting) -> Seq<Setting>
    decreases s.len(),
{
    if s.len() == 0 {
        seq![x]
    } else if text_lt(x.0, s[0].0) {
        seq![x] + s
    } else {
        seq![s[0]] + insert_by_key(s.drop_first(), x)
    }
}

/// The settings ordered by name, ties in their given order.
pub open spec fn sort_by_key(s: Seq<Setting>) -> Seq<Setting>
    decreases s.len(),
{
    if s.len() == 0 {
        s
    } else {
        insert_by_key(sort_by_key(s.drop_last()), s.last())
    }
}

/// Names never decrease along `s`.
pub open spec fn key_sorted(s: Seq<Setting>) -> bool {
    forall|i: int, j: int| 0 <= i < j < s.len() ==> !text_lt(#[trigger] s[j].0, #[trigger] s[i].0)
}

proof fn lemma_insert_by_key(s: Seq<Setting>, x: Setting)
    requires
        key_sorted(s),
    ensures
        key_sorted(insert_by_key(s, x)),
        insert_by_key(s, x).to_multiset() =~= s.to_multiset().insert(x),
        insert_by_key(s, x).len() == s.len() + 1,
        forall|k: int|
            0 <= k < s.len() + 1 ==> #[trigger] insert_by_key(s, x)[k] == x || s.contains(
                insert_by_key(s, x)[k],
            ),
    decreases s.len(),
{
    broadcast use vstd::seq_lib::group_to_multiset_ensures;
    broadcast use vstd::multiset::group_multiset_axioms;

    let r = insert_by_key(s, x);
    if s.len() == 0 {
        assert(seq![x] =~= Seq::<Setting>::empty().push(x));
        assert(s =~= Seq::<Setting>::empty());
    } else if text_lt(x.0, s[0].0) {
        vstd::seq_lib::lemma_multiset_commutative(seq![x], s);
        assert(seq![x] =~= Seq::<Setting>::empty().push(x));
        assert forall|i: int, j: int| 0 <= i < j < r.len() implies !text_lt(
            #[trigger] r[j].0,
            #[trigger] r[i].0,
        ) by {
            if i == 0 {
                if text_lt(r[j].0, x.0) {
                    lemma_text_lt_transitive(r[j].0, x.0, s[0].0);
                    if j - 1 == 0 {
                        lemma_text_lt_irreflexive(s[0].0);
                    } else {
                        assert(r[j] == s[j - 1]);
                    }
                }
            } else {
                assert(r[i] == s[i - 1] && r[j] == s[j - 1]);
            }
        }
        assert forall|k: int| 0 <= k < s.len() + 1 implies #[trigger] r[k] == x || s.contains(
            r[k],
        ) by {
            if k > 0 {
                assert(r[k] == s[k - 1]);
            }
        }
    } else {
        let rest = s.drop_first();
        assert(key_sorted(rest)) by {
            assert forall|i: int, j: int| 0 <= i < j < rest.len() implies !text_lt(
                #[trigger] rest[j].0,
                #[trigger] rest[i].0,
            ) by {
                assert(rest[i] == s[i + 1] && rest[j] == s[j + 1]);
            }
        }
        lemma_insert_by_key(rest, x);
        let ri = insert_by_key(rest, x);
        vstd::seq_lib::lemma_multiset_commutative(seq![s[0]], ri);
        vstd::seq_lib::lemma_multiset_commutative(seq![s[0]], rest);
        assert(s =~= seq![s[0]] + rest);
        assert(seq![s[0]] =~= Seq::<Setting>::empty().push(s[0]));
        assert forall|i: int, j: int| 0 <= i < j < r.len() implies !text_lt(
            #[trigger] r[j].0,
            #[trigger] r[i].0,
        ) by {
            assert(r[j] == ri[j - 1]);
            if i == 0 {
                if ri[j - 1] != x {
                    assert(rest.contains(ri[j - 1]));
                    let t = choose|t: int| 0 <= t < rest.len() && rest[t] == ri[j - 1];
                    assert(rest[t] == s[t + 1]);
                }
            } else {
                assert(r[i] == ri[i - 1]);
            }
        }
        assert forall|k: int| 0 <= k < s.len() + 1 implies #[trigger] r[k] == x || s.contains(
            r[k],
        ) by {
            if k > 0 {
                assert(r[k] == ri[k - 1]);
                if ri[k - 1] != x {
                    let t = choose|t: int| 0 <= t < rest.len() && rest[t] == ri[k - 1];
                    assert(s[t + 1] == ri[k - 1]);
                }
            }
        }
    }
}

/// Ordering settings by name yields a name-ordered arrangement of the same
/// settings.
pub proof fn law_sort_by_key(s: Seq<Setting>)
    ensures
        key_sorted(sort_by_key(s)),
        sort_by_key(s).to_multiset() =~= s.to_multiset(),
    decreases s.len(),
{
    broadcast use vstd::seq_lib::group_to_multiset_ensures;

    if s.len() > 0 {
        law_sort_by_key(s.drop_last());
        lemma_insert_by_key(sort_by_key(s.drop_last()), s.last());
        assert(s =~= s.drop_last().push(s.last()));
    } else {
        assert(key_sorted(s));
    }
}

proof fn lemma_insert_at(s: Seq<Setting>, x: Setting, j: int)
    requires
        0 <= j <= s.len(),
        forall|t: int| 0 <= t < j ==> !text_lt(x.0, #[trigger] s[t].0),
        j < s.len() ==> text_lt(x.0, s[j].0),
    ensures
        insert_by_key(s, x) == s.take(j) + seq![x] + s.skip(j),
    decreases j,
{
    if j == 0 {
        assert(s.take(0) + seq![x] + s.skip(0) =~= seq![x] + s);
        if s.len() == 0 {
            assert(seq![x] + s =~= seq![x]);
        }
    } else {
        let rest = s.drop_first();
        assert forall|t: int| 0 <= t < j - 1 implies !text_lt(x.0, #[trigger] rest[t].0) by {
            assert(rest[t] == s[t + 1]);
        }
        assert(!text_lt(x.0, s[0].0));
        lemma_insert_at(rest, x, j - 1);
        assert(s.take(j) + seq![x] + s.skip(j) =~= seq![s[0]] + (rest.take(j - 1) + seq![x]
            + rest.skip(j - 1)));
    }
}

fn clone_pair(p: &(String, String)) -> (r: (String, String))
    ensures
        r.0@ == p.0@ && r.1@ == p.1@,
{
    (p.0.clone(), p.1.clone())
}

/// The settings ordered by name (a stable insertion sort).
pub fn sort_settings(vars: &[(String, String)]) -> (r: Vec<(String, String)>)
    ensures
        pair_texts(r@) == sort_by_key(pair_texts(vars@)),
{
    let ghost pv = pair_texts(vars@);
    let mut out: Vec<(String, String)> = Vec::new();
    let mut i: usize = 0;
    while i < vars.len()
        invariant
            i <= vars.len(),
            pv == pair_texts(vars@),
            pair_texts(out@) == sort_by_key(pv.take(i as int)),
        decreases vars.len() - i,
    {
        let x = clone_pair(&vars[i]);
        let ghost xv: Setting = (x.0@, x.1@);
        let ghost ov = pair_texts(out@);
        proof {
            assert(pv.take(i + 1).drop_last() =~= pv.take(i as int));
            assert(pv.take(i + 1).last() == xv);
        }
        let mut j: usize = 0;
        while j < out.len()
            invariant
                j <= out@.len(),
                ov == pair_texts(out@),
                xv.0 == x.0@,
                forall|t: int| 0 <= t < j ==> !text_lt(xv.0, #[trigger] ov[t].0),
            ensures
                j <= out@.len(),
                forall|t: int| 0 <= t < j ==> !text_lt(xv.0, #[trigger] ov[t].0),
                j < out@.len() ==> text_lt(xv.0, ov[j as int].0),
            decreases out@.len() - j,
        {
            assert(ov[j as int].0 == out@[j as int].0@);
            if str_lt(x.0.as_str(), out[j].0.as_str()) {
                break;
            }
            j += 1;
        }
        proof {
            lemma_insert_at(ov, xv, j as int);
        }
        out.insert(j, x);
        assert(pair_texts(out@) =~= ov.take(j as int) + seq![xv] + ov.skip(j as int));
        i += 1;
    }
    assert(pv.take(vars.len() as int) =~= pv);
    out
}

/// The heading of the session-variable section.
pub const SESSION_VARS_HEAD: &'static str = "\n\n## ⚠️ 当前集群配置 (严格禁止重复建议!)\n";

/// The heading of the enabled switches.
pub const ENABLED_HEAD: &'static str = "\n### 🟢 已启用的功能 (禁止再建议开启!)\n";

/// The heading of the disabled switches.
pub const DISABLED_HEAD: &'static str = "\n### 🔴 已禁用的功能 (可建议开启)\n";

/// The heading of the other settings.
pub const OTHER_HEAD: &'static str = "\n### 其他配置\n";

/// A variable named `enable_...` is a feature switch.
pub open spec fn is_switch(name: Seq<char>) -> bool {
    starts_with(name, "enable_"@)
}

/// A switch value that means on.
pub open spec fn is_on(value: Seq<char>) -> bool {
    value == "true"@ || value == "1"@
}

/// The back-quoted names of the switches that are on (`on`) or off.
pub open spec fn switch_list(s: Seq<Setting>, on: bool) -> Seq<Seq<char>>
    decreases s.len(),
{
    if s.len() == 0 {
        Seq::empty()
    } else {
        let prev = switch_list(s.drop_last(), on);
        let e = s.last();
        if is_switch(e.0) && is_on(e.1) == on {
            prev.push("`"@ + e.0 + "`"@)
        } else {
            prev
        }
    }
}

/// The list lines of the settings that are not switches.
pub open spec fn other_lines(s: Seq<Setting>) -> Seq<char>
    decreases s.len(),
{
    if s.len() == 0 {
        Seq::empty()
    } else {
        let e = s.last();
        other_lines(s.drop_last()) + if is_switch(e.0) {
            Seq::empty()
        } else {
            "- `"@ + e.0 + "` = `"@ + e.1 + "`\n"@
        }
    }
}

/// The session-variable section of ordered settings: enabled switches,
/// disabled switches and the other settings, each part only when it has an
/// entry.
pub open spec fn settings_text(s: Seq<Setting>) -> Seq<char> {
    let en = switch_list(s, true);
    let dis = switch_list(s, false);
    let oth = other_lines(s);
    SESSION_VARS_HEAD@ + (if en.len() > 0 {
        ENABLED_HEAD@ + join(en, ", "@) + "\n"@
    } else {
        Seq::empty()
    }) + (if dis.len() > 0 {
        DISABLED_HEAD@ + join(dis, ", "@) + "\n"@
    } else {
        Seq::empty()
    }) + (if oth.len() > 0 {
        OTHER_HEAD@ + oth
    } else {
        Seq::empty()
    }) + SESSION_VARS_RULES@
}

/// Empty without settings; otherwise the section of the settings ordered
/// by name.
pub open spec fn session_vars_text(vars: Seq<Setting>) -> Seq<char> {
    if vars.len() == 0 {
        Seq::empty()
    } else {
        settings_text(sort_by_key(vars))
    }
}

fn is_on_exec(value: &str) -> (r: bool)
    ensures
        r == is_on(value@),
{
    str_eq(value, "true") || str_eq(value, "1")
}

/// The section on the session variables already set (given as the entries
/// of the variable map, so with distinct names), telling the model not to
/// recommend switches that are already on.
pub fn build_session_vars_prompt(session_vars: &[(String, String)]) -> (r: String)
    ensures
        r@ == session_vars_text(pair_texts(session_vars@)),
{
    if session_vars.len() == 0 {
        return String::new();
    }
    let sorted = sort_settings(session_vars);
    let ghost sv = pair_texts(sorted@);
    let mut enabled: Vec<String> = Vec::new();
    let mut disabled: Vec<String> = Vec::new();
    let mut others = String::new();
    let mut has_others = false;
    let prefix = chars_of("enable_");
    let mut i: usize = 0;
    while i < sorted.len()
        invariant
            i <= sorted.len(),
            sv == pair_texts(sorted@),
            prefix@ == "enable_"@,
            texts(enabled@) == switch_list(sv.take(i as int), true),
            texts(disabled@) == switch_list(sv.take(i as int), false),
            others@ == other_lines(sv.take(i as int)),
            has_others == (others@.len() > 0),
        decreases sorted.len() - i,
    {
        let e = &sorted[i];
        proof {
            assert(sv.take(i + 1).drop_last() =~= sv.take(i as int));
            assert(sv.take(i + 1).last() == (e.0@, e.1@));
        }
        let name = chars_of(e.0.as_str());
        if starts_with_exec(name.as_slice(), prefix.as_slice()) {
            let mut q = String::from_str("`");
            q.append(e.0.as_str());
            q.append("`");
            if is_on_exec(e.1.as_str()) {
                enabled.push(q);
                assert(texts(enabled@) =~= switch_list(sv.take(i + 1), true));
                assert(texts(disabled@) =~= switch_list(sv.take(i + 1), false));
            } else {
                disabled.push(q);
                assert(texts(enabled@) =~= switch_list(sv.take(i + 1), true));
                assert(texts(disabled@) =~= switch_list(sv.take(i + 1), false));
            }
            assert(other_lines(sv.take(i + 1)) =~= other_lines(sv.take(i as int)));
        } else {
            proof {
                reveal_strlit("- `");
            }
            others.append("- `");
            others.append(e.0.as_str());
            others.append("` = `");
            others.append(e.1.as_str());
            others.append("`\n");
            has_others = true;
        }
        i += 1;
    }
    assert(sv.take(sorted.len() as int) =~= sv);
    let mut r = String::from_str(SESSION_VARS_HEAD);
    if enabled.len() > 0 {
        r.append(ENABLED_HEAD);
        let list = join_strings(enabled.as_slice(), ", ");
        r.append(list.as_str());
        r.append("\n");
    }
    if disabled.len() > 0 {
        r.append(DISABLED_HEAD);
        let list = join_strings(disabled.as_slice(), ", ");
        r.append(list.as_str());
        r.append("\n");
    }
    if has_others {
        r.append(OTHER_HEAD);
        r.append(others.as_str());
    }
    r.append(SESSION_VARS_RULES);
    r
}

// ---------------------------------------------------------------------------
// Tables of the query
// ---------------------------------------------------------------------------

/// What the prompt reads of a scanned table.
#[derive(Debug, Clone)]
pub struct ScanTable {
    pub table_name: String,
    /// `internal` or `external`.
    pub table_type: String,
    pub connector_type: Option<String>,
}

/// The connector of a scan, `unknown` when none is known.
pub open spec fn scan_connector(s: ScanTable) -> Seq<char> {
    match s.connector_type {
        Some(c) => c@,
        None => "unknown"@,
    }
}

/// The names of the engine's own tables, in scan order.
pub open spec fn internal_names(s: Seq<ScanTable>) -> Seq<Seq<char>>
    decreases s.len(),
{
    if s.len() == 0 {
        Seq::empty()
    } else {
        let prev = internal_names(s.drop_last());
        if s.last().table_type@ == "internal"@ {
            prev.push(s.last().table_name@)
        } else {
            prev
        }
    }
}

/// A connector with its external tables.
pub type TableGroup = (Seq<char>, Seq<Seq<char>>);

/// The first position of connector `c` in `g` (`g.len()` when absent).
pub open spec fn group_index(g: Seq<TableGroup>, c: Seq<char>) -> int
    decreases g.len(),
{
    if g.len() == 0 {
        0
    } else if g[0].0 == c {
        0
    } else {
        1 + group_index(g.drop_first(), c)
    }
}

/// The external tables grouped by connector, connectors in order of first
/// appearance and tables in scan order.
pub open spec fn external_groups(s: Seq<ScanTable>) -> Seq<TableGroup>
    decreases s.len(),
{
    if s.len() == 0 {
        Seq::empty()
    } else {
        let g = external_groups(s.drop_last());
        let x = s.last();
        if x.table_type@ == "internal"@ {
            g
        } else {
            let c = scan_connector(x);
            let j = group_index(g, c);
            if j < g.len() {
                g.update(j, (c, g[j].1.push(x.table_name@)))
            } else {
                g.push((c, seq![x.table_name@]))
            }
        }
    }
}

/// Items as `- ` lines.
pub open spec fn bullets(items: Seq<Seq<char>>) -> Seq<char> {
    join(items.map_values(|h: Seq<char>| "- "@ + h), "\n"@)
}

/// The section on the engine's own tables.
pub open spec fn internal_section(t: ClusterType, names: Seq<Seq<char>>) -> Seq<char> {
    "\n### "@ + display_name(t) + " 内表 ("@ + nat_dec(names.len()) + " 张)\n表名: "@ + join(
        names,
        ", "@,
    ) + "\n\n**内表优化方向:**\n"@ + bullets(internal_hints_spec(t)) + "\n"@
}

/// The cache switch (when the connector has one) followed by its hints.
pub open spec fn hint_lines(h: (Seq<char>, Seq<char>, Seq<Seq<char>>)) -> Seq<Seq<char>> {
    (if h.1.len() > 0 {
        seq!["启用缓存: `"@ + h.1 + "`"@]
    } else {
        Seq::empty()
    }) + h.2
}

/// The section on the tables of one connector.
pub open spec fn external_section(t: ClusterType, c: Seq<char>, tables: Seq<Seq<char>>) -> Seq<char> {
    let h = connector_hints_spec(c, t);
    "\n### "@ + h.0 + " 外表 ("@ + nat_dec(tables.len()) + " 张)\n表名: "@ + join(tables, ", "@)
        + "\n\n**"@ + h.0 + " 表优化方向:**\n"@ + bullets(hint_lines(h)) + "\n"@
}

/// The sections of all connectors, in order.
pub open spec fn external_sections(t: ClusterType, g: Seq<TableGroup>) -> Seq<char>
    decreases g.len(),
{
    if g.len() == 0 {
        Seq::empty()
    } else {
        external_sections(t, g.drop_last()) + external_section(t, g.last().0, g.last().1)
    }
}

/// The heading of the table section.
pub const TABLES_HEAD: &'static str = "\n\n## 📊 本次查询涉及的表\n";

/// The table section: the engine's own tables (when any), then each
/// connector's external tables.
pub open spec fn table_type_text(scans: Seq<ScanTable>, t: ClusterType) -> Seq<char> {
    let names = internal_names(scans);
    TABLES_HEAD@ + (if names.len() > 0 {
        internal_section(t, names)
    } else {
        Seq::empty()
    }) + external_sections(t, external_groups(scans))
}

/// The texts of groups of strings.
pub open spec fn group_texts(v: Seq<(String, Vec<String>)>) -> Seq<TableGroup> {
    v.map_values(|g: (String, Vec<String>)| (g.0@, texts(g.1@)))
}

proof fn lemma_group_index(g: Seq<TableGroup>, c: Seq<char>, j: int)
    requires
        0 <= j <= g.len(),
        forall|t: int| 0 <= t < j ==> (#[trigger] g[t]).0 != c,
        j < g.len() ==> g[j].0 == c,
    ensures
        group_index(g, c) == j,
    decreases j,
{
    if j > 0 {
        assert(g[0].0 != c);
        let rest = g.drop_first();
        assert forall|t: int| 0 <= t < j - 1 implies (#[trigger] rest[t]).0 != c by {
            assert(rest[t] == g[t + 1]);
        }
        lemma_group_index(rest, c, j - 1);
    } else if g.len() > 0 {
    }
}

/// Items as `- ` lines.
pub fn bullet_list(items: &[String]) -> (r: String)
    ensures
        r@ == bullets(texts(items@)),
{
    let ghost iv = texts(items@);
    let mut lines: Vec<String> = Vec::new();
    let mut i: usize = 0;
    while i < items.len()
        invariant
            i <= items.len(),
            iv == texts(items@),
            texts(lines@) == iv.take(i as int).map_values(|h: Seq<char>| "- "@ + h),
        decreases items.len() - i,
    {
        let mut line = String::from_str("- ");
        line.append(items[i].as_str());
        assert(line@ == "- "@ + iv[i as int]);
        let ghost before = texts(lines@);
        lines.push(line);
        assert(texts(lines@) =~= before.push(line@));
        assert(texts(lines@) =~= iv.take(i + 1).map_values(|h: Seq<char>| "- "@ + h));
        i += 1;
    }
    assert(iv.take(items.len() as int) =~= iv);
    join_strings(lines.as_slice(), "\n")
}

fn owned_lits(v: &[&'static str]) -> (r: Vec<String>)
    ensures
        texts(r@) == lits(v@),
{
    let mut r: Vec<String> = Vec::new();
    let mut i: usize = 0;
    while i < v.len()
        invariant
            i <= v.len(),
            texts(r@) == lits(v@.take(i as int)),
        decreases v.len() - i,
    {
        let ghost before = texts(r@);
        let x = String::from_str(v[i]);
        r.push(x);
        assert(texts(r@) =~= before.push(x@));
        assert(lits(v@.take(i + 1)) =~= lits(v@.take(i as int)).push(v@[i as int]@));
        assert(texts(r@) =~= lits(v@.take(i + 1)));
        i += 1;
    }
    assert(v@.take(v.len() as int) =~= v@);
    r
}

fn count_text(n: usize) -> (r: String)
    ensures
        r@ == nat_dec(n as nat),
{
    let d = u64_dec(n as u64);
    string_of(d.as_slice())
}

fn external_section_exec(t: ClusterType, connector: &str, tables: &[String]) -> (r: String)
    ensures
        r@ == external_section(t, connector@, texts(tables@)),
{
    let hints = get_connector_hints(connector, t);
    let ghost h = connector_hints_spec(connector@, t);
    let mut lines: Vec<String> = Vec::new();
    if !hints.cache_cmd.is_empty() {
        let mut c = String::from_str("启用缓存: `");
        c.append(hints.cache_cmd);
        c.append("`");
        lines.push(c);
    }
    let more = owned_lits(hints.hints.as_slice());
    let mut k: usize = 0;
    let ghost base = texts(lines@);
    while k < more.len()
        invariant
            k <= more.len(),
            texts(lines@) == base + texts(more@).take(k as int),
        decreases more.len() - k,
    {
        let ghost before = texts(lines@);
        let x = more[k].clone();
        lines.push(x);
        assert(texts(lines@) =~= before.push(x@));
        assert(x@ == texts(more@)[k as int]);
        assert(texts(lines@) =~= base + texts(more@).take(k + 1));
        k += 1;
    }
    assert(texts(more@).take(more.len() as int) =~= texts(more@));
    assert(base =~= (if h.1.len() > 0 {
        seq!["启用缓存: `"@ + h.1 + "`"@]
    } else {
        Seq::<Seq<char>>::empty()
    }));
    assert(texts(lines@) =~= hint_lines(h));
    let mut r = String::from_str("\n### ");
    r.append(hints.name.as_str());
    r.append(" 外表 (");
    let n = count_text(tables.len());
    r.append(n.as_str());
    r.append(" 张)\n表名: ");
    let names = join_strings(tables, ", ");
    r.append(names.as_str());
    r.append("\n\n**");
    r.append(hints.name.as_str());
    r.append(" 表优化方向:**\n");
    let b = bullet_list(lines.as_slice());
    r.append(b.as_str());
    r.append("\n");
    r
}

/// The section on the tables the query scans (external tables grouped by
/// connector in order of first appearance).
#[verifier::spinoff_prover]
#[verifier::rlimit(40)]
pub fn build_table_type_prompt(scan_details: &[ScanTable], cluster_type: ClusterType) -> (r: String)
    ensures
        r@ == table_type_text(scan_details@, cluster_type),
{
    let ghost sd = scan_details@;
    let mut internal: Vec<String> = Vec::new();
    let mut groups: Vec<(String, Vec<String>)> = Vec::new();
    let mut i: usize = 0;
    while i < scan_details.len()
        invariant
            i <= scan_details.len(),
            sd == scan_details@,
            texts(internal@) == internal_names(sd.take(i as int)),
            group_texts(groups@) == external_groups(sd.take(i as int)),
        decreases scan_details.len() - i,
    {
        let scan = &scan_details[i];
        proof {
            assert(sd.take(i + 1).drop_last() =~= sd.take(i as int));
            assert(sd.take(i + 1).last() == *scan);
        }
        if str_eq(scan.table_type.as_str(), "internal") {
            let ghost before = texts(internal@);
            let name = scan.table_name.clone();
            internal.push(name);
            assert(texts(internal@) =~= before.push(name@));
        } else {
            let connector = match &scan.connector_type {
                Some(c) => c.clone(),
                None => String::from_str("unknown"),
            };
            assert(connector@ == scan_connector(*scan));
            let ghost gv = group_texts(groups@);
            let mut j: usize = 0;
            while j < groups.len()
                invariant
                    j <= groups@.len(),
                    gv == group_texts(groups@),
                    forall|t: int| 0 <= t < j ==> (#[trigger] gv[t]).0 != connector@,
                ensures
                    j <= groups@.len(),
                    forall|t: int| 0 <= t < j ==> (#[trigger] gv[t]).0 != connector@,
                    j < groups@.len() ==> gv[j as int].0 == connector@,
                decreases groups@.len() - j,
            {
                assert(gv[j as int].0 == groups@[j as int].0@);
                if str_eq(groups[j].0.as_str(), connector.as_str()) {
                    break;
                }
                j += 1;
            }
            proof {
                lemma_group_index(gv, connector@, j as int);
            }
            let name = scan.table_name.clone();
            if j < groups.len() {
                let mut item = groups.remove(j);
                let ghost old_item = item;
                assert(old_item.0@ == connector@);
                assert(texts(old_item.1@) == gv[j as int].1);
                item.1.push(name);
                assert(texts(item.1@) =~= texts(old_item.1@).push(name@));
                groups.insert(j, item);
                assert(group_texts(groups@) =~= gv.update(
                    j as int,
                    (connector@, gv[j as int].1.push(name@)),
                ));
            } else {
                let mut tables: Vec<String> = Vec::new();
                tables.push(name);
                assert(texts(tables@) =~= seq![name@]);
                let ghost cv = connector@;
                groups.push((connector, tables));
                assert(group_texts(groups@) =~= gv.push((cv, seq![name@])));
            }
        }
        i += 1;
    }
    assert(sd.take(scan_details.len() as int) =~= sd);
    let mut r = String::from_str(TABLES_HEAD);
    if internal.len() > 0 {
        r.append("\n### ");
        r.append(cluster_display_name(cluster_type));
        r.append(" 内表 (");
        let n = count_text(internal.len());
        r.append(n.as_str());
        r.append(" 张)\n表名: ");
        let names = join_strings(internal.as_slice(), ", ");
        r.append(names.as_str());
        r.append("\n\n**内表优化方向:**\n");
        let hints = owned_lits(get_internal_table_hints(cluster_type));
        let b = bullet_list(hints.as_slice());
        r.append(b.as_str());
        r.append("\n");
    }
    let ghost gv = group_texts(groups@);
    let ghost before = r@;
    let mut k: usize = 0;
    while k < groups.len()
        invariant
            k <= groups@.len(),
            gv == group_texts(groups@),
            r@ == before + external_sections(cluster_type, gv.take(k as int)),
        decreases groups@.len() - k,
    {
        let sec = external_section_exec(cluster_type, groups[k].0.as_str(), groups[k].1.as_slice());
        assert(gv.take(k + 1).drop_last() =~= gv.take(k as int));
        assert(gv.take(k + 1).last() == gv[k as int]);
        r.append(sec.as_str());
        k += 1;
    }
    assert(gv.take(groups.len() as int) =~= gv);
    r
}

// ---------------------------------------------------------------------------
// Request details without measured ratios
// ---------------------------------------------------------------------------

/// Join operator details sent to the model.
#[derive(Debug, Clone)]
pub struct JoinDetailForLLM {
    pub plan_node_id: i32,
    pub join_type: String,
    pub build_rows: u64,
    pub probe_rows: u64,
    pub output_rows: u64,
    pub hash_table_memory: Option<u64>,
    pub is_broadcast: bool,
    pub runtime_filter: Option<String>,
}

/// Memory figures of a query sent to the model.
#[derive(Debug, Clone)]
pub struct MemoryMetricsForLLM {
    pub peak_memory_bytes: u64,
    pub spill_bytes: u64,
    pub hash_table_memory: u64,
}

// ---------------------------------------------------------------------------
// The whole prompt
// ---------------------------------------------------------------------------

/// Base prompt, tables (when the profile was read), rule findings, session
/// variables, the engine's parameters and the output format, in that order.
pub open spec fn system_prompt_text(
    t: ClusterType,
    scans: Option<Seq<ScanTable>>,
    diagnostics: Seq<DiagnosticForLLM>,
    session_vars: Seq<Setting>,
) -> Seq<char> {
    base_prompt_text(t) + (match scans {
        Some(s) => table_type_text(s, t),
        None => Seq::empty(),
    }) + issue_focused_text(diagnostics) + session_vars_text(session_vars) + valid_params_text(t)
        + OUTPUT_FORMAT@ + JSON_FORMAT@
}

/// The system prompt of a root-cause analysis request: the engine, the
/// scanned tables when profile data came with the request, the rule
/// findings and the session variables set on the query.
pub fn build_system_prompt(
    cluster_type: ClusterType,
    scan_details: Option<&[ScanTable]>,
    rule_diagnostics: &[DiagnosticForLLM],
    session_variables: &[(String, String)],
) -> (r: String)
    ensures
        r@ == system_prompt_text(
            cluster_type,
            match scan_details {
                Some(s) => Some(s@),
                None => None,
            },
            rule_diagnostics@,
            pair_texts(session_variables@),
        ),
{
    let mut r = build_base_prompt(cluster_type);
    match scan_details {
        Some(s) => {
            let t = build_table_type_prompt(s, cluster_type);
            r.append(t.as_str());
        },
        None => {},
    }
    let issues = build_issue_focused_prompt(rule_diagnostics);
    r.append(issues.as_str());
    let vars = build_session_vars_prompt(session_variables);
    r.append(vars.as_str());
    r.append(get_valid_params_prompt(cluster_type));
    r.append(OUTPUT_FORMAT);
    r.append(JSON_FORMAT);
    r
}

} // verus!
